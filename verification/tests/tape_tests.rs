use tape_machine::runtime::{Program, RunOutcome, Tape};

const FUEL: u64 = 1_000_000;

fn chars(s: &str) -> Vec<char> {
    s.chars().collect()
}

fn output_of(src: &str, input: &[u8]) -> Vec<u8> {
    let p = Program::parse(&chars(src)).unwrap();
    match p.run(&input.to_vec(), FUEL) {
        RunOutcome::Done(out) => out,
        RunOutcome::OutOfFuel => panic!("step budget exhausted"),
    }
}

#[test]
fn moving_past_either_bound_exposes_zero() {
    let mut t = Tape::new();
    t.set(9);
    t.move_left();
    assert_eq!(t.get(), 0);
    t.move_left();
    assert_eq!(t.get(), 0);
    t.set(5);
    t.move_right();
    assert_eq!(t.get(), 0);
}

#[test]
fn moving_back_finds_cells_as_they_were_left() {
    let mut t = Tape::new();
    t.set(1);
    t.move_right();
    t.set(2);
    t.move_right();
    t.set(3);
    t.move_left();
    assert_eq!(t.get(), 2);
    t.move_left();
    assert_eq!(t.get(), 1);
    t.move_right();
    t.move_right();
    assert_eq!(t.get(), 3);
}

#[test]
fn fresh_cells_read_zero_through_a_program() {
    // Wandering far to the left of the starting cell never fails, and a
    // cell never written reads zero wherever the cursor has been.
    assert_eq!(output_of("<<<.", b""), vec![0u8]);
    assert_eq!(output_of(">>>.", b""), vec![0u8]);
    assert_eq!(output_of("+<<.>>.", b""), vec![0u8, 1u8]);
}

#[test]
fn decrementing_zero_wraps_to_255() {
    assert_eq!(output_of("-.", b""), vec![255u8]);
}

#[test]
fn incrementing_255_wraps_to_zero() {
    assert_eq!(output_of("-+.", b""), vec![0u8]);
    let two_hundred_fifty_six_incrs = format!("{}.", "+".repeat(256));
    assert_eq!(output_of(&two_hundred_fifty_six_incrs, b""), vec![0u8]);
}

#[test]
fn increments_then_decrements_cancel() {
    let src = format!("{}{}.", "+".repeat(40), "-".repeat(40));
    assert_eq!(output_of(&src, b""), vec![0u8]);
    let from_seven = format!("+++++++{}{}.", "+".repeat(300), "-".repeat(300));
    assert_eq!(output_of(&from_seven, b""), vec![7u8]);
}
