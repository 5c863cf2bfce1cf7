//! Tests of the instruction builder and of the execution engine.

use rbf::errors::{BFError, BFErrorKind};
use rbf::io::{BlankInput, BlankOutput, BufferOutput, ScriptInput};
use rbf::semantics::Instruct;
use rbf::{Instructions, Program};

/// Execute a program with blank input and output, without boilerplate,
/// running until completion or an error.
fn blank_execute_prgm(prgm: &mut Program) -> Result<(), BFError> {
    let mut input = BlankInput::new();
    let mut output = BlankOutput::new();
    prgm.execute(&mut input, &mut output, usize::MAX).map(|_| ())
}

#[test]
fn str_to_instructions() {
    let instructions_str = "+-<>s[]comment,."; // the 's' and the word 'comment' are
                                               // comments and should be ignored in the output
    let instructions = Instructions::from_string(instructions_str);
    assert_eq!(
        instructions,
        Instructions(vec![
            Instruct::MvValue(1),
            Instruct::MvValue(-1),
            Instruct::MvPtr(-1),
            Instruct::MvPtr(1),
            Instruct::OpenLoop,
            Instruct::CloseLoop,
            Instruct::Input,
            Instruct::Output,
        ])
    );
}

#[test]
fn create_program() {
    let instructions = Instructions::from_string("+-><[],.");
    let new_program = Program::new(instructions.clone());
    let custom_program = Program {
        instructions,
        instruction_ptr: 0,
        cell_ptr: 0,
        cells: vec![],
        loop_stack: vec![],
    };

    assert_eq!(new_program, custom_program);
}

#[test]
fn instruction_bounds_error() {
    // Should error if trying to access instruction out of bounds e.g. stepping after
    // program has already finished.
    let mut prgm = Program::from_string("+-><[],.");

    blank_execute_prgm(&mut prgm).unwrap();

    let mut input = BlankInput::new();
    let mut output = BlankOutput::new();

    let result = prgm.step(&mut input, &mut output).map_err(|e| e.kind);
    let expected = Err(BFErrorKind::InstructionBoundsError);
    assert_eq!(result, expected);
}

#[test]
fn cell_bounds_error() {
    // Should error if we try to access a cell outside of bounds.
    let mut prgm = Program::from_string("<+");

    let result = blank_execute_prgm(&mut prgm).map_err(|e| e.kind);
    let expected = Err(BFErrorKind::CellBoundsError);
    assert_eq!(result, expected);
}

#[test]
fn invalid_input() {
    // If the program receives invalid input e.g. char values larger than 255.
    let mut prgm = Program::from_string(",");

    // Try passing too big a char as input.
    let mut input = ScriptInput::new(vec!['\u{10FFFF}']);
    let mut output = BlankOutput::new();
    let result = prgm
        .execute(&mut input, &mut output, usize::MAX)
        .map(|_| ())
        .map_err(|e| e.kind);
    let expected = Err(BFErrorKind::InvalidInput);
    assert_eq!(result, expected);
}

#[test]
fn missing_open_bracket() {
    let mut prgm = Program::from_string("++>+++>+.<.]-<+++");

    let result = blank_execute_prgm(&mut prgm).map_err(|e| e.kind);
    let expected = Err(BFErrorKind::MissingOpen);
    assert_eq!(result, expected);
}

#[test]
fn missing_close_bracket() {
    // Situation where it wouldn't yet skip to closing bracket
    let mut prgm = Program::from_string("++>+++>+.<.[-<+++");
    // Situation where it would
    let mut prgm2 = Program::from_string("++>+++>+.<.>>>[-<+++");

    let result = blank_execute_prgm(&mut prgm).map_err(|e| e.kind);
    let result2 = blank_execute_prgm(&mut prgm2).map_err(|e| e.kind);
    let expected = Err(BFErrorKind::MissingClose);
    assert_eq!(result, expected);
    assert_eq!(result2, expected);
}

#[test]
fn program_from_string() {
    let instructions_str = "+-><[],.";
    let instructions = Instructions::from_string(instructions_str);

    let prgm_from_str = Program::from_string(instructions_str);
    let prgm_from_instructions = Program::new(instructions);

    assert_eq!(prgm_from_str, prgm_from_instructions);
}

#[test]
fn reset_program() {
    let instructions = Instructions::from_string("+-><[],.");
    let mut prgm = Program::new(instructions.clone());
    let static_prgm = Program::new(instructions);

    blank_execute_prgm(&mut prgm).unwrap();

    assert_ne!(prgm, static_prgm);

    prgm.reset();

    assert_eq!(prgm, static_prgm);
}

#[test]
fn instruction_execution() {
    let instructions = Instructions::from_string(
        "++++++++[>++++[>++>+++>+++>+<<<<-]>+>+>->>+[<]<-]>>.>---.+++++++..+++.>>.<-.<.+++.------.--------.>>+.>++."
    );
    let mut outstring = String::new();
    let mut program = Program::new(instructions);
    let mut input = BlankInput::new();
    let mut output = BufferOutput::new();
    let _ = program.execute(&mut input, &mut output, usize::MAX);
    for c in output.chars() {
        outstring.push(*c);
    }

    assert_eq!("Hello World!\n", outstring);
}
