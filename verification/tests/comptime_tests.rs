use tape_machine::comptime::{
    AsString, Cons, Decr, GetOutput, Incr, Left, Loop, Make, MakeMachine, Machine, Memory, Nil,
    Read, Right, RunMachine, ToValue, Write,
};
use tape_machine::peano::{Add, DecrNat, Five, Four, Mul, One, Six, Three, Two, Zero, U8};

// The identity coercion compiles only when the two named types are the
// same, so each binding below is a compile-time check that the type-level
// machine derived the expected state.
type Run<M, P> = <M as RunMachine<P>>::Next;

#[test]
fn peano_numerals_extract_to_their_values() {
    assert_eq!(<Zero as U8>::u8(), 0);
    assert_eq!(<Three as U8>::u8(), 3);
    assert_eq!(<Six as U8>::u8(), 6);
}

#[test]
fn peano_addition_by_trait_resolution() {
    assert_eq!(<<Five as Add<Two>>::Sum as U8>::u8(), 7);
    assert_eq!(<<Zero as Add<Three>>::Sum as U8>::u8(), 3);
}

#[test]
fn peano_multiplication_by_trait_resolution() {
    let _same: fn(<Two as Mul<Three>>::Prod) -> Six = |n| n;
    assert_eq!(<<Two as Mul<Three>>::Prod as U8>::u8(), 6);
    assert_eq!(<<Three as Mul<Zero>>::Prod as U8>::u8(), 0);
}

#[test]
fn peano_decrement_saturates_at_zero() {
    let _same: fn(<Five as DecrNat>::Result) -> <Two as Add<Two>>::Sum = |n| n;
    assert_eq!(<<Five as DecrNat>::Result as U8>::u8(), 4);
    assert_eq!(<<Zero as DecrNat>::Result as U8>::u8(), 0);
}

#[test]
fn peano_make_extracts_wider_values() {
    assert_eq!(<Six as Make<u8>>::make(), 6u8);
    assert_eq!(<Six as Make<u32>>::make(), 6u32);
}

#[test]
fn machine_increments_and_writes() {
    type Prog = Cons<Incr, Cons<Write, Nil>>;
    let _same: fn(Run<MakeMachine<Nil>, Prog>) -> Machine<
        Memory<Nil, One, Nil>,
        Nil,
        Cons<One, Nil>,
    > = |m| m;
    let out = <<Run<MakeMachine<Nil>, Prog> as GetOutput>::Output as Make<Vec<u8>>>::make();
    assert_eq!(out, vec![1u8]);
}

#[test]
fn machine_increments_and_decrements() {
    type Start = Machine<Memory<Nil, Zero, Nil>, Nil, Nil>;
    let _one: fn(Run<Start, Cons<Incr, Nil>>) -> Machine<Memory<Nil, One, Nil>, Nil, Nil> =
        |m| m;
    let _two: fn(
        Run<Start, Cons<Incr, Cons<Incr, Nil>>>,
    ) -> Machine<Memory<Nil, Two, Nil>, Nil, Nil> = |m| m;
    let _back: fn(
        Run<Start, Cons<Incr, Cons<Incr, Cons<Decr, Nil>>>>,
    ) -> Machine<Memory<Nil, One, Nil>, Nil, Nil> = |m| m;
}

#[test]
fn machine_moves_left_and_right() {
    type Start = Machine<Memory<Nil, One, Nil>, Nil, Nil>;
    let _right: fn(
        Run<Start, Cons<Right, Nil>>,
    ) -> Machine<Memory<Cons<One, Nil>, Zero, Nil>, Nil, Nil> = |m| m;
    let _back: fn(
        Run<Start, Cons<Right, Cons<Left, Nil>>>,
    ) -> Machine<Memory<Nil, One, Cons<Zero, Nil>>, Nil, Nil> = |m| m;
}

#[test]
fn machine_moves_left_past_the_edge() {
    type Start = Machine<Memory<Nil, One, Nil>, Nil, Nil>;
    let _left: fn(
        Run<Start, Cons<Left, Nil>>,
    ) -> Machine<Memory<Nil, Zero, Cons<One, Nil>>, Nil, Nil> = |m| m;
}

#[test]
fn machine_runs_a_loop_while_the_cell_is_nonzero() {
    type Start = Machine<Memory<Nil, Two, Nil>, Nil, Nil>;
    type Prog = Cons<Loop<Cons<Decr, Nil>>, Cons<Incr, Nil>>;
    let _same: fn(Run<Start, Prog>) -> Machine<Memory<Nil, One, Nil>, Nil, Nil> = |m| m;
}

#[test]
fn machine_echoes_its_input_until_exhaustion() {
    // The cat program `,[.>,]`: reading past the end of the input yields
    // zero, which ends the loop.
    type Prog = Cons<Read, Cons<Loop<Cons<Write, Cons<Right, Cons<Read, Nil>>>>, Nil>>;
    type Input = Cons<One, Cons<Three, Cons<Five, Nil>>>;
    let out = <<Run<MakeMachine<Input>, Prog> as GetOutput>::Output as Make<Vec<u8>>>::make();
    assert_eq!(out, vec![1u8, 3u8, 5u8]);
}

#[test]
fn output_list_reads_back_as_text() {
    type Eight = <Two as Mul<Four>>::Prod;
    type Nine = <Three as Mul<Three>>::Prod;
    type CapitalH = <Eight as Mul<Nine>>::Prod;
    assert_eq!(<Nil as AsString>::as_string(), "");
    assert_eq!(<Cons<CapitalH, Nil> as AsString>::as_string(), "H");
    assert_eq!(
        <Cons<One, Cons<Three, Nil>> as AsString>::as_string(),
        "\u{3}\u{1}"
    );
}

#[test]
fn to_value_extracts_nested_structure() {
    assert_eq!(<Three as ToValue>::to_value(), 3u8);
    assert_eq!(<Nil as ToValue>::to_value(), "Nil".to_string());
    assert_eq!(
        <Cons<One, Nil> as ToValue>::to_value(),
        (1u8, "Nil".to_string())
    );
    assert_eq!(
        <Memory<Nil, Two, Cons<One, Nil>> as ToValue>::to_value(),
        ("Nil".to_string(), 2u8, (1u8, "Nil".to_string()))
    );
}

#[test]
fn machine_agrees_with_the_runtime_interpreter() {
    // The same source, `++[>+<-]>.`, evaluated by both strategies.
    type Body = Cons<Right, Cons<Incr, Cons<Left, Cons<Decr, Nil>>>>;
    type Prog = Cons<Incr, Cons<Incr, Cons<Loop<Body>, Cons<Right, Cons<Write, Nil>>>>>;
    let from_types =
        <<Run<MakeMachine<Nil>, Prog> as GetOutput>::Output as Make<Vec<u8>>>::make();

    let src: Vec<char> = "++[>+<-]>.".chars().collect();
    let p = tape_machine::runtime::Program::parse(&src).unwrap();
    match p.run(&Vec::new(), 1_000_000) {
        tape_machine::runtime::RunOutcome::Done(from_runtime) => {
            assert_eq!(from_types, from_runtime);
            assert_eq!(from_types, vec![2u8]);
        }
        tape_machine::runtime::RunOutcome::OutOfFuel => panic!("step budget exhausted"),
    }
}
