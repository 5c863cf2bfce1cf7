//! Tests of the engine's stated properties: builder output, wraparound
//! arithmetic, bracket errors, completion, resetting and fuel handling.

use rbf::errors::{BFError, BFErrorKind};
use rbf::io::{BlankInput, BlankOutput, BufferOutput, ScriptInput};
use rbf::semantics::Instruct;
use rbf::{Instructions, Program};

/// Run a program text to completion with scripted input, capturing output.
fn run_capture(source: &str, input_chars: Vec<char>) -> (Result<bool, BFError>, Vec<char>) {
    let mut prgm = Program::from_string(source);
    let mut input = ScriptInput::new(input_chars);
    let mut output = BufferOutput::new();
    let r = prgm.execute(&mut input, &mut output, usize::MAX);
    (r, output.chars().clone())
}

#[test]
fn builder_emits_one_instruction_per_command() {
    let instructions = Instructions::from_string("abc[x-]y");
    assert_eq!(
        instructions.0,
        vec![Instruct::OpenLoop, Instruct::MvValue(-1), Instruct::CloseLoop]
    );
}

#[test]
fn builder_ignores_arbitrary_text() {
    let instructions = Instructions::from_string("no commands at all \u{263A}");
    assert_eq!(instructions.0.len(), 0);

    let empty = Instructions::from_string("");
    assert_eq!(empty.0.len(), 0);
}

#[test]
fn wraparound_increment_at_255() {
    // A cell at value 255 receiving +1 becomes 0.
    let mut source = "+".repeat(256);
    source.push('.');
    let (r, out) = run_capture(&source, vec![]);
    assert_eq!(r.map_err(|e| e.kind), Ok(true));
    assert_eq!(out, vec!['\0']);
}

#[test]
fn wraparound_decrement_at_0() {
    // A cell at value 0 receiving -1 becomes 255.
    let (r, out) = run_capture("-.", vec![]);
    assert_eq!(r.map_err(|e| e.kind), Ok(true));
    assert_eq!(out, vec![255u8 as char]);
}

#[test]
fn lone_close_bracket_fails_missing_open() {
    let (r, out) = run_capture("]", vec![]);
    assert_eq!(r.map_err(|e| e.kind), Err(BFErrorKind::MissingOpen));
    assert_eq!(out, Vec::<char>::new());
}

#[test]
fn lone_open_bracket_fails_missing_close() {
    let (r, _) = run_capture("[", vec![]);
    assert_eq!(r.map_err(|e| e.kind), Err(BFErrorKind::MissingClose));
}

#[test]
fn entered_loop_without_close_fails_missing_close() {
    // The loop is entered (guard nonzero), the end is reached with the loop
    // still open.
    let (r, _) = run_capture("+[", vec![]);
    assert_eq!(r.map_err(|e| e.kind), Err(BFErrorKind::MissingClose));
}

#[test]
fn leading_left_move_fails_before_any_cell_is_touched() {
    let mut prgm = Program::from_string("<");
    let mut input = BlankInput::new();
    let mut output = BlankOutput::new();
    let r = prgm.execute(&mut input, &mut output, usize::MAX);
    assert_eq!(r.map_err(|e| e.kind), Err(BFErrorKind::CellBoundsError));
    // No cell was written: the tape holds only the lazily grown zero cell.
    assert_eq!(prgm.cells, vec![0u8]);
    assert_eq!(prgm.cell_ptr, 0);
}

#[test]
fn copies_two_input_bytes_to_output_in_order() {
    let (r, out) = run_capture(",>,<.>.", vec!['A', 'B']);
    assert_eq!(r.map_err(|e| e.kind), Ok(true));
    assert_eq!(out, vec!['A', 'B']);
}

#[test]
fn oversized_input_fails_without_mutating_the_tape() {
    let mut prgm = Program::from_string(",");
    let mut input = ScriptInput::new(vec!['\u{10FFFF}']);
    let mut output = BufferOutput::new();
    let r = prgm.execute(&mut input, &mut output, usize::MAX);
    assert_eq!(r.map_err(|e| e.kind), Err(BFErrorKind::InvalidInput));
    // The tape was grown with a zero cell but never written.
    assert_eq!(prgm.cells, vec![0u8]);
    assert_eq!(output.chars().len(), 0);
}

#[test]
fn balanced_program_completes_without_error() {
    // A well-balanced bracket program with no pointer movement below zero
    // terminates done, with no error.
    let (r, out) = run_capture("++[>++<-]>.", vec![]);
    assert_eq!(r.map_err(|e| e.kind), Ok(true));
    assert_eq!(out, vec![4u8 as char]);
}

#[test]
fn nested_loop_is_skipped_on_zero_guard() {
    let (r, out) = run_capture("[[]].", vec![]);
    assert_eq!(r.map_err(|e| e.kind), Ok(true));
    assert_eq!(out, vec!['\0']);
}

#[test]
fn done_reports_completion_state() {
    let empty = Program::from_string("");
    assert_eq!(empty.done().map_err(|e| e.kind), Ok(true));

    let unfinished = Program::from_string("+");
    assert_eq!(unfinished.done().map_err(|e| e.kind), Ok(false));
}

#[test]
fn step_executes_one_instruction_at_a_time() {
    let mut prgm = Program::from_string("+>");
    let mut input = BlankInput::new();
    let mut output = BlankOutput::new();

    prgm.step(&mut input, &mut output).unwrap();
    assert_eq!(prgm.cells, vec![1u8]);
    assert_eq!(prgm.instruction_ptr, 1);

    prgm.step(&mut input, &mut output).unwrap();
    assert_eq!(prgm.cell_ptr, 1);
    assert_eq!(prgm.done().map_err(|e| e.kind), Ok(true));
}

#[test]
fn reset_mid_execution_restores_the_initial_state() {
    let instructions = Instructions::from_string("+++>+");
    let mut prgm = Program::new(instructions.clone());
    let fresh = Program::new(instructions);
    let mut input = BlankInput::new();
    let mut output = BlankOutput::new();

    prgm.step(&mut input, &mut output).unwrap();
    prgm.step(&mut input, &mut output).unwrap();
    assert_ne!(prgm, fresh);

    prgm.reset();
    assert_eq!(prgm, fresh);
}

#[test]
fn exhausted_fuel_reports_unfinished_and_execution_continues() {
    let mut prgm = Program::from_string("+++");
    let mut input = BlankInput::new();
    let mut output = BlankOutput::new();

    let r = prgm.execute(&mut input, &mut output, 0);
    assert_eq!(r.map_err(|e| e.kind), Ok(false));
    assert_eq!(prgm.instruction_ptr, 0);

    let r2 = prgm.execute(&mut input, &mut output, 2);
    assert_eq!(r2.map_err(|e| e.kind), Ok(false));
    assert_eq!(prgm.cells, vec![2u8]);

    let r3 = prgm.execute(&mut input, &mut output, usize::MAX);
    assert_eq!(r3.map_err(|e| e.kind), Ok(true));
    assert_eq!(prgm.cells, vec![3u8]);
}

#[test]
fn scripted_input_hands_out_nul_once_exhausted() {
    let (r, out) = run_capture(",>,<.>.", vec!['A']);
    assert_eq!(r.map_err(|e| e.kind), Ok(true));
    assert_eq!(out, vec!['A', '\0']);
}

#[test]
fn error_messages_describe_each_kind() {
    let msg = |kind: BFErrorKind| BFError { kind }.message();
    assert_eq!(
        msg(BFErrorKind::MissingClose),
        "The program has an open bracket with no close bracket."
    );
    assert_eq!(
        msg(BFErrorKind::MissingOpen),
        "The program has a close bracket with no open bracket."
    );
    assert_eq!(msg(BFErrorKind::InvalidInput), "An invalid value was passed to BF input.");
    assert_eq!(msg(BFErrorKind::CellBoundsError), "Tried to access cell out of bounds");
    assert_eq!(
        msg(BFErrorKind::InstructionBoundsError),
        "Tried to process instruction out of bounds."
    );
}
