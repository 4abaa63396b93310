use tape_machine::parser::ParseError;
use tape_machine::runtime::{Program, RunOutcome};

const FUEL: u64 = 1_000_000;

fn chars(s: &str) -> Vec<char> {
    s.chars().collect()
}

fn parse_ok(s: &str) -> Program {
    Program::parse(&chars(s)).unwrap()
}

fn run_to_end(p: &Program, input: &[u8]) -> Vec<u8> {
    match p.run(&input.to_vec(), FUEL) {
        RunOutcome::Done(out) => out,
        RunOutcome::OutOfFuel => panic!("step budget exhausted"),
    }
}

#[test]
fn three_increments_output_three() {
    let p = parse_ok("+++.");
    assert_eq!(run_to_end(&p, b""), vec![3u8]);
}

#[test]
fn loop_clears_cell_and_outputs_nothing() {
    let p = parse_ok("+[-]");
    assert_eq!(run_to_end(&p, b""), Vec::<u8>::new());
}

#[test]
fn loop_clears_cell_on_existing_tape() {
    // Driving the interpreter against a caller-made tape: the loop `[-]`
    // runs its body exactly as many times as the cell holds, then halts
    // with the cell at zero.
    let p = parse_ok("[-]");
    let mut tape = tape_machine::runtime::Tape::new();
    tape.set(1);
    let input: Vec<u8> = Vec::new();
    let mut pos: usize = 0;
    let mut out: Vec<u8> = Vec::new();
    let halted = p.run_context(&mut tape, &input, &mut pos, &mut out, FUEL);
    assert!(halted);
    assert_eq!(tape.get(), 0);
    assert_eq!(out, Vec::<u8>::new());
}

#[test]
fn cat_echoes_its_input() {
    let p = parse_ok(",[.,]");
    assert_eq!(run_to_end(&p, b"hi"), b"hi".to_vec());
}

#[test]
fn lone_close_bracket_fails_to_parse() {
    assert_eq!(
        Program::parse(&chars("]")),
        Err(ParseError::UnmatchedCloseBracket)
    );
}

#[test]
fn hello_world_program_prints_hello_world() {
    let src = "++++++++[>++++[>++>+++>+++>+<<<<-]>+>+>->>+[<]<-]>>.>---.+++++++..+++.>>.<-.<.+++.------.--------.>>+.>++.";
    let p = parse_ok(src);
    let out = run_to_end(&p, b"");
    assert_eq!(String::from_utf8(out).unwrap(), "Hello World!\n");
}

#[test]
fn unterminated_loop_fails_to_parse() {
    // A `[` that is never closed is a fatal parse error; end of input is
    // not an implicit close.
    assert_eq!(
        Program::parse(&chars("+[")),
        Err(ParseError::UnmatchedOpenBracket)
    );
}

#[test]
fn rerunning_a_program_gives_the_same_output() {
    let p = parse_ok(",+.>,+.");
    let first = run_to_end(&p, b"ab");
    let second = run_to_end(&p, b"ab");
    assert_eq!(first, second);
    assert_eq!(first, vec![b'b', b'c']);
}

#[test]
fn endless_loop_reports_exhausted_budget() {
    let p = parse_ok("+[]");
    assert_eq!(p.run(&Vec::new(), 10_000), RunOutcome::OutOfFuel);
}

#[test]
fn reading_exhausted_input_yields_zero() {
    // The input-exhaustion policy: a read past the end of the input
    // writes zero to the cell, it does not fail.
    let p = parse_ok(",.");
    assert_eq!(run_to_end(&p, b""), vec![0u8]);
    let p = parse_ok(",,.");
    assert_eq!(run_to_end(&p, b"A"), vec![0u8]);
}

#[test]
fn unknown_characters_are_inert_comments() {
    let p = parse_ok("a + b + c .");
    assert_eq!(run_to_end(&p, b""), vec![2u8]);
}
