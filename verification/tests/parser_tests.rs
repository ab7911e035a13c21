//! Parser behavior: the eight tokens, comment bytes, nesting, and the two
//! unbalanced-bracket failures.

use bf_compiler::instruction::Instruction;
use bf_compiler::parser::{parse, ParseError};

#[test]
fn parses_the_eight_tokens() {
    let program = parse("+-><.,").unwrap();
    assert_eq!(
        program,
        vec![
            Instruction::Increment,
            Instruction::Decrement,
            Instruction::PointerIncrement,
            Instruction::PointerDecrement,
            Instruction::PutChar,
            Instruction::GetChar,
        ]
    );
}

#[test]
fn ignores_everything_else() {
    let program = parse("a + b - c! \n\t#").unwrap();
    assert_eq!(program, vec![Instruction::Increment, Instruction::Decrement]);
}

#[test]
fn parses_nested_loops() {
    let program = parse("+[>[-]<]").unwrap();
    assert_eq!(
        program,
        vec![
            Instruction::Increment,
            Instruction::Loop(vec![
                Instruction::PointerIncrement,
                Instruction::Loop(vec![Instruction::Decrement]),
                Instruction::PointerDecrement,
            ]),
        ]
    );
}

#[test]
fn empty_input_is_the_empty_program() {
    assert_eq!(parse("").unwrap(), vec![]);
}

#[test]
fn stray_closing_bracket_is_rejected() {
    assert_eq!(parse("]").unwrap_err(), ParseError::Unbalanced);
    assert_eq!(parse("+]").unwrap_err(), ParseError::Unbalanced);
    assert_eq!(parse("[]]").unwrap_err(), ParseError::Unbalanced);
}

#[test]
fn unclosed_opening_bracket_is_rejected() {
    assert_eq!(parse("[").unwrap_err(), ParseError::Unbalanced);
    assert_eq!(parse("+[[-]").unwrap_err(), ParseError::Unbalanced);
}
