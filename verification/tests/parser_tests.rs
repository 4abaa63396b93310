use tape_machine::parser::ParseError;
use tape_machine::runtime::Program;

fn chars(s: &str) -> Vec<char> {
    s.chars().collect()
}

#[test]
fn empty_source_parses_to_empty_program() {
    assert_eq!(Program::parse(&chars("")), Ok(Program::Empty));
}

#[test]
fn instructions_chain_front_to_back() {
    assert_eq!(
        Program::parse(&chars("+-")),
        Ok(Program::Incr(Box::new(Program::Decr(Box::new(
            Program::Empty
        )))))
    );
}

#[test]
fn loop_owns_its_body_and_continuation() {
    assert_eq!(
        Program::parse(&chars("[+].")),
        Ok(Program::Loop(
            Box::new(Program::Incr(Box::new(Program::Empty))),
            Box::new(Program::Output(Box::new(Program::Empty))),
        ))
    );
}

#[test]
fn nested_loops_parse_inside_out() {
    assert_eq!(
        Program::parse(&chars("[[-]]")),
        Ok(Program::Loop(
            Box::new(Program::Loop(
                Box::new(Program::Decr(Box::new(Program::Empty))),
                Box::new(Program::Empty),
            )),
            Box::new(Program::Empty),
        ))
    );
}

#[test]
fn comment_characters_vanish_from_the_tree() {
    assert_eq!(Program::parse(&chars("x+y")), Program::parse(&chars("+")));
}

#[test]
fn deeply_nested_balanced_brackets_parse() {
    // Nesting depth is unbounded by design.
    let src = format!("{}{}", "[".repeat(200), "]".repeat(200));
    assert!(Program::parse(&chars(&src)).is_ok());
}

#[test]
fn close_bracket_after_balanced_loop_fails() {
    assert_eq!(
        Program::parse(&chars("[]]")),
        Err(ParseError::UnmatchedCloseBracket)
    );
}

#[test]
fn close_bracket_fault_wins_over_open_fault() {
    // The `]` at the second position closes a bracket never opened, even
    // though a later `[` is also left open.
    assert_eq!(
        Program::parse(&chars("+]+[")),
        Err(ParseError::UnmatchedCloseBracket)
    );
}

#[test]
fn open_bracket_inside_loop_body_fails() {
    assert_eq!(
        Program::parse(&chars("[[]")),
        Err(ParseError::UnmatchedOpenBracket)
    );
}
