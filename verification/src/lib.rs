//! A minimal virtual machine for a small, Turing-complete instruction set:
//! eight commands operating on a pointer-addressed byte tape.
//!
//! Source text is translated by [`Instructions::from_string`] into a typed
//! instruction sequence; a [`Program`] owns that sequence together with all
//! mutable machine state and interprets it stepwise, reading characters from
//! an [`io::InputSource`] and emitting characters to an [`io::OutputSink`].
//! Every run either completes or reports a well-defined
//! [`errors::BFError`]; the engine never panics.
//!
//! The observable behaviour of the engine is specified against the abstract
//! machine of [`semantics`]: each executable step is proved to implement
//! [`semantics::spec_step`], and a whole run is proved to be a chain of such
//! steps.

use vstd::prelude::*;
use vstd::pervasive::VecAdditionalExecFns;
use vstd::string::StrSliceExecFns;

pub mod errors;
pub mod io;
pub mod laws;
pub mod semantics;

use crate::errors::{BFError, BFErrorKind};
use crate::io::{InputSource, OutputSink};
use crate::laws::{
    lemma_no_bracket_fail, lemma_parse_snoc, lemma_runs_to_snoc, lemma_scan_close, lemma_wf_step,
};
use crate::semantics::{
    balanced, cell_add, cnt, err_of, grown, init_state, input_cell_rel, io_step, io_step_with,
    parse, run_rel, runs_to, scan, spec_done, spec_step, wf, Instruct, MachineState,
};

verus! {

/// An ordered sequence of typed machine instructions, produced once from
/// source text and then owned by the engine that executes it.
#[derive(Debug, PartialEq, Clone)]
pub struct Instructions(pub Vec<Instruct>);

impl View for Instructions {
    type V = Seq<Instruct>;

    open spec fn view(&self) -> Seq<Instruct> {
        self.0@
    }
}

impl Instructions {
    /// Convert a string slice of commands into an `Instructions` value
    /// holding the converted instructions: exactly one instruction per
    /// recognized command character, in source order; every other character
    /// is silently discarded as commentary.
    pub fn from_string(commands: &str) -> (r: Instructions)
        ensures
            r@ == parse(commands@),
    {
        let n = commands.unicode_len();
        let mut converted: Vec<Instruct> = Vec::new();
        let mut i: usize = 0;
        while i < n
            invariant
                n == commands@.len(),
                i <= n,
                converted@ == parse(commands@.take(i as int)),
            decreases n - i,
        {
            let c = commands.get_char(i);
            proof {
                assert(commands@.take(i + 1) =~= commands@.take(i as int).push(c));
                lemma_parse_snoc(commands@.take(i as int), c);
            }
            match c {
                '>' => converted.push(Instruct::MvPtr(1)),
                '<' => converted.push(Instruct::MvPtr(-1)),
                '-' => converted.push(Instruct::MvValue(-1)),
                '+' => converted.push(Instruct::MvValue(1)),
                '.' => converted.push(Instruct::Output),
                ',' => converted.push(Instruct::Input),
                '[' => converted.push(Instruct::OpenLoop),
                ']' => converted.push(Instruct::CloseLoop),
                _ => (),  // Anything other than a command symbol is a comment.
            }
            i = i + 1;
        }
        proof {
            assert(commands@.take(n as int) =~= commands@);
        }
        Instructions(converted)
    }
}

/// The execution engine: an instruction sequence together with all mutable
/// machine state, interpreted stepwise.
#[derive(Debug, PartialEq)]
pub struct Program {
    /// Instructions to execute.
    pub instructions: Instructions,
    /// Index into the instructions of the next instruction to execute.
    pub instruction_ptr: usize,
    /// The memory tape: cells holding one byte each, grown lazily.
    pub cells: Vec<u8>,
    /// Current location in the tape.
    pub cell_ptr: usize,
    /// Positions of the entered, not yet closed, open-loop instructions.
    pub loop_stack: Vec<usize>,
}

impl View for Program {
    type V = MachineState;

    open spec fn view(&self) -> MachineState {
        MachineState {
            instrs: self.instructions@,
            ip: self.instruction_ptr as int,
            cells: self.cells@,
            cp: self.cell_ptr as int,
            stack: self.loop_stack@.map_values(|p: usize| p as int),
        }
    }
}

impl Program {
    /// Create a new engine over an already-built instruction sequence, in the
    /// initial state: instruction cursor 0, empty tape, tape cursor 0, empty
    /// loop stack.
    pub fn new(instructions: Instructions) -> (r: Program)
        ensures
            r@ == init_state(instructions@),
            wf(r@),
    {
        let r = Program {
            instructions,
            instruction_ptr: 0,
            cells: vec![],
            cell_ptr: 0,
            loop_stack: vec![],
        };
        proof {
            assert(r@.stack =~= Seq::<int>::empty());
        }
        r
    }

    /// Create a new engine directly from a string of command text: a
    /// convenience wrapper around [`Instructions::from_string`] and
    /// [`Program::new`].
    pub fn from_string(instructions: &str) -> (r: Program)
        ensures
            r@ == init_state(parse(instructions@)),
            wf(r@),
    {
        Self::new(Instructions::from_string(instructions))
    }

    /// Clear and reset the engine state: the instruction cursor, the tape,
    /// the tape cursor and the loop stack return to the initial state, so the
    /// engine is observationally identical to one freshly constructed from
    /// the same instruction sequence. The instructions themselves are kept.
    pub fn reset(&mut self)
        ensures
            final(self)@ == init_state(old(self)@.instrs),
            wf(final(self)@),
    {
        self.instruction_ptr = 0;
        self.cells.clear();
        self.cell_ptr = 0;
        self.loop_stack.clear();
        proof {
            assert(self@.stack =~= Seq::<int>::empty());
        }
    }

    /// Check whether the program has finished executing: true iff the
    /// instruction cursor is at or past the end of the instructions and the
    /// loop stack is empty. Reaching the end with a loop still open is the
    /// `MissingClose` error.
    pub fn done(&self) -> (r: Result<bool, BFError>)
        ensures
            r == spec_done(self@),
    {
        if self.instruction_ptr >= self.instructions.0.len() {
            if self.loop_stack.len() > 0 {
                Err(BFError { kind: BFErrorKind::MissingClose })
            } else {
                Ok(true)
            }
        } else {
            Ok(false)
        }
    }

    /// Grow the tape with zero-valued cells until the cell at the tape cursor
    /// is addressable; cells are never shrunk.
    fn validate_cells_length(&mut self)
        ensures
            final(self)@ == (MachineState {
                cells: grown(old(self)@.cells, old(self)@.cp),
                ..old(self)@
            }),
    {
        let ghost pre = self@;
        while self.cells.len() <= self.cell_ptr
            invariant
                self.instructions@ == pre.instrs,
                self.instruction_ptr as int == pre.ip,
                self.cell_ptr as int == pre.cp,
                self.loop_stack@.map_values(|p: usize| p as int) == pre.stack,
                pre.cells.len() <= self.cells@.len(),
                self.cells@.subrange(0, pre.cells.len() as int) == pre.cells,
                forall|i: int| pre.cells.len() <= i < self.cells@.len() ==> self.cells@[i] == 0u8,
                self.cells@.len() <= (if pre.cells.len() > pre.cp {
                    pre.cells.len() as int
                } else {
                    pre.cp + 1
                }),
            decreases pre.cp + 1 - self.cells@.len(),
        {
            self.cells.push(0);
            proof {
                assert(self.cells@.subrange(0, pre.cells.len() as int) =~= pre.cells);
            }
        }
        proof {
            assert(self.cells@ =~= grown(pre.cells, pre.cp));
            assert(self@ == (MachineState { cells: grown(pre.cells, pre.cp), ..pre }));
        }
    }

    /// Move the tape cursor by `amount` cells using checked arithmetic: a
    /// move that would take the cursor below zero (or beyond the machine's
    /// address range) fails with `CellBoundsError` before the state is
    /// mutated. No upper bound is imposed by the engine itself; the tape
    /// grows to accommodate any representable index.
    fn move_cell_pointer(&mut self, amount: &isize) -> (r: Result<(), BFError>)
        ensures
            if 0 <= old(self)@.cp + *amount <= usize::MAX {
                r == Ok::<(), BFError>(()) && final(self)@ == (MachineState {
                    cp: old(self)@.cp + *amount,
                    ..old(self)@
                })
            } else {
                r == Err::<(), BFError>(BFError { kind: BFErrorKind::CellBoundsError })
                    && final(self)@ == old(self)@
            },
    {
        self.cell_ptr = match self.cell_ptr.checked_add_signed(*amount) {
            Some(val) => val,
            None => {
                return Err(BFError { kind: BFErrorKind::CellBoundsError });
            },
        };
        Ok(())
    }

    /// Add `amount`, truncated to a signed 8-bit value, to the byte at the
    /// tape cursor with wraparound (modulo-256) semantics: overflow and
    /// underflow wrap silently, by design.
    fn move_cell_value(&mut self, amount: &isize)
        requires
            0 <= old(self)@.cp < old(self)@.cells.len(),
        ensures
            final(self)@ == (MachineState {
                cells: old(self)@.cells.update(
                    old(self)@.cp,
                    cell_add(old(self)@.cells[old(self)@.cp], *amount),
                ),
                ..old(self)@
            }),
    {
        let d: i8 = #[verifier::truncate] (*amount as i8);
        let b: u8 = self.cells[self.cell_ptr];
        self.cells.set(self.cell_ptr, b.wrapping_add_signed(d));
    }

    /// Retrieve one character from the input source into the cell at the tape
    /// cursor; a character whose code point exceeds 255 fails with
    /// `InvalidInput` without mutating the tape.
    fn input_cell<I: InputSource>(&mut self, input: &mut I) -> (r: Result<(), BFError>)
        requires
            0 <= old(self)@.cp < old(self)@.cells.len(),
        ensures
            exists|c: char|
                input_cell_rel(
                    old(self)@,
                    final(self)@,
                    old(input).stream(),
                    final(input).stream(),
                    r,
                    c,
                ),
    {
        let in_char = input.next_char();
        let in_byte = in_char as u32;
        if in_byte < 256 {
            self.cells.set(self.cell_ptr, in_byte as u8);
            proof {
                assert(input_cell_rel(
                    old(self)@,
                    self@,
                    old(input).stream(),
                    input.stream(),
                    Ok::<(), BFError>(()),
                    in_char,
                ));
            }
            Ok(())
        } else {
            proof {
                assert(input_cell_rel(
                    old(self)@,
                    self@,
                    old(input).stream(),
                    input.stream(),
                    Err::<(), BFError>(BFError { kind: BFErrorKind::InvalidInput }),
                    in_char,
                ));
            }
            Err(BFError { kind: BFErrorKind::InvalidInput })
        }
    }

    /// Emit the byte at the tape cursor, reinterpreted as a character, to the
    /// output sink; this never fails.
    fn output_cell<O: OutputSink>(&self, output: &mut O)
        requires
            0 <= self@.cp < self@.cells.len(),
        ensures
            final(output).written() == old(output).written().push(
                self@.cells[self@.cp] as char,
            ),
    {
        output.put_char(self.cells[self.cell_ptr] as char);
    }

    /// Handle an open-loop instruction: with a nonzero guard, record the
    /// current instruction cursor on the loop stack; with a zero guard, move
    /// the cursor to the matching close-loop instruction, failing with
    /// `MissingClose` if there is none.
    fn open_loop(&mut self) -> (r: Result<(), BFError>)
        requires
            0 <= old(self)@.cp < old(self)@.cells.len(),
            0 <= old(self)@.ip < old(self)@.instrs.len(),
        ensures
            if old(self)@.cells[old(self)@.cp] != 0 {
                r == Ok::<(), BFError>(()) && final(self)@ == (MachineState {
                    stack: old(self)@.stack.push(old(self)@.ip),
                    ..old(self)@
                })
            } else {
                match scan(old(self)@.instrs, old(self)@.ip + 1, 0) {
                    Some(k) => r == Ok::<(), BFError>(()) && final(self)@ == (MachineState {
                        ip: k,
                        ..old(self)@
                    }),
                    None => r == Err::<(), BFError>(BFError { kind: BFErrorKind::MissingClose })
                        && final(self)@ == old(self)@,
                }
            },
    {
        if self.cells[self.cell_ptr] > 0 {
            self.loop_stack.push(self.instruction_ptr);
            proof {
                assert(self.loop_stack@.map_values(|p: usize| p as int) =~= old(
                    self,
                )@.stack.push(old(self)@.ip));
            }
            Ok(())
        } else {
            self.move_to_closed_loop()
        }
    }

    /// Handle a close-loop instruction: pop the matching open-loop position
    /// and move the instruction cursor back to it, so that its guard is
    /// evaluated again; a close with nothing on the loop stack fails with
    /// `MissingOpen`.
    fn close_loop(&mut self) -> (r: Result<(), BFError>)
        ensures
            if old(self)@.stack.len() == 0 {
                r == Err::<(), BFError>(BFError { kind: BFErrorKind::MissingOpen })
                    && final(self)@ == old(self)@
            } else {
                r == Ok::<(), BFError>(()) && final(self)@ == (MachineState {
                    ip: old(self)@.stack.last(),
                    stack: old(self)@.stack.drop_last(),
                    ..old(self)@
                })
            },
    {
        match self.loop_stack.pop() {
            Some(n) => {
                self.instruction_ptr = n;
                proof {
                    assert(self.loop_stack@.map_values(|p: usize| p as int) =~= old(
                        self,
                    )@.stack.drop_last());
                }
                Ok(())
            },
            None => Err(BFError { kind: BFErrorKind::MissingOpen }),
        }
    }

    /// Find the close-loop instruction matching the open loop at the current
    /// instruction cursor and move the cursor there: a linear forward scan
    /// keeping a nesting count, failing with `MissingClose` if the end of the
    /// instructions is reached first.
    fn move_to_closed_loop(&mut self) -> (r: Result<(), BFError>)
        requires
            0 <= old(self)@.ip < old(self)@.instrs.len(),
        ensures
            match scan(old(self)@.instrs, old(self)@.ip + 1, 0) {
                Some(k) => r == Ok::<(), BFError>(()) && final(self)@ == (MachineState {
                    ip: k,
                    ..old(self)@
                }),
                None => r == Err::<(), BFError>(BFError { kind: BFErrorKind::MissingClose })
                    && final(self)@ == old(self)@,
            },
    {
        let ghost pre = self@;
        let n = self.instructions.0.len();
        let mut depth: usize = 0;
        let mut current_instruction: usize = self.instruction_ptr + 1;
        loop
            invariant
                pre == old(self)@,
                self@ == pre,
                n == pre.instrs.len(),
                0 <= pre.ip < pre.instrs.len(),
                pre.ip + 1 <= current_instruction <= pre.instrs.len(),
                depth <= current_instruction - (pre.ip + 1),
                scan(pre.instrs, current_instruction as int, depth as int) == scan(
                    pre.instrs,
                    pre.ip + 1,
                    0,
                ),
            decreases pre.instrs.len() - current_instruction,
        {
            if current_instruction >= self.instructions.0.len() {
                return Err(BFError { kind: BFErrorKind::MissingClose });
            }
            let instruction = self.instructions.0[current_instruction];
            match instruction {
                Instruct::OpenLoop => {
                    depth = depth + 1;
                },
                Instruct::CloseLoop => {
                    if depth == 0 {
                        self.instruction_ptr = current_instruction;
                        return Ok(());
                    }
                    depth = depth - 1;
                },
                _ => (),
            }
            current_instruction = current_instruction + 1;
        }
    }

    /// Execute exactly one instruction at the instruction cursor. The tape is
    /// first grown so that the current cell is addressable; the executed step
    /// is one transition of the abstract machine
    /// ([`semantics::spec_step`]), for the character the input source
    /// yielded (a character is taken only by an input instruction). Stepping
    /// past the end of the instructions fails with `InstructionBoundsError`.
    pub fn step<I: InputSource, O: OutputSink>(&mut self, input: &mut I, output: &mut O) -> (r:
        Result<(), BFError>)
        ensures
            io_step(
                old(self)@,
                old(input).stream(),
                old(output).written(),
                final(self)@,
                final(input).stream(),
                final(output).written(),
                err_of(r),
            ),
    {
        self.validate_cells_length();
        let ghost g = self@;
        if self.instruction_ptr >= self.instructions.0.len() {
            proof {
                assert(io_step_with(
                    old(self)@,
                    old(input).stream(),
                    old(output).written(),
                    self@,
                    input.stream(),
                    output.written(),
                    Some(BFErrorKind::InstructionBoundsError),
                    ' ',
                ));
            }
            return Err(BFError { kind: BFErrorKind::InstructionBoundsError });
        }
        let instruction = self.instructions.0[self.instruction_ptr];
        match instruction {
            Instruct::MvPtr(n) => match self.move_cell_pointer(&n) {
                Ok(()) => {
                    self.instruction_ptr = self.instruction_ptr + 1;
                    proof {
                        assert(io_step_with(
                            old(self)@,
                            old(input).stream(),
                            old(output).written(),
                            self@,
                            input.stream(),
                            output.written(),
                            None,
                            ' ',
                        ));
                    }
                    Ok(())
                },
                Err(e) => {
                    proof {
                        assert(io_step_with(
                            old(self)@,
                            old(input).stream(),
                            old(output).written(),
                            self@,
                            input.stream(),
                            output.written(),
                            Some(BFErrorKind::CellBoundsError),
                            ' ',
                        ));
                    }
                    Err(e)
                },
            },
            Instruct::MvValue(n) => {
                self.move_cell_value(&n);
                self.instruction_ptr = self.instruction_ptr + 1;
                proof {
                    assert(io_step_with(
                        old(self)@,
                        old(input).stream(),
                        old(output).written(),
                        self@,
                        input.stream(),
                        output.written(),
                        None,
                        ' ',
                    ));
                }
                Ok(())
            },
            Instruct::Input => {
                let ghost insg = input.stream();
                let res = self.input_cell(input);
                let ghost mid = self@;
                match res {
                    Ok(()) => {
                        self.instruction_ptr = self.instruction_ptr + 1;
                        proof {
                            let c = choose|c: char|
                                input_cell_rel(g, mid, insg, input.stream(), res, c);
                            assert(io_step_with(
                                old(self)@,
                                old(input).stream(),
                                old(output).written(),
                                self@,
                                input.stream(),
                                output.written(),
                                None,
                                c,
                            ));
                        }
                        Ok(())
                    },
                    Err(e) => {
                        proof {
                            let c = choose|c: char|
                                input_cell_rel(g, mid, insg, input.stream(), res, c);
                            assert(io_step_with(
                                old(self)@,
                                old(input).stream(),
                                old(output).written(),
                                self@,
                                input.stream(),
                                output.written(),
                                Some(BFErrorKind::InvalidInput),
                                c,
                            ));
                        }
                        Err(e)
                    },
                }
            },
            Instruct::Output => {
                self.output_cell(output);
                self.instruction_ptr = self.instruction_ptr + 1;
                proof {
                    assert(io_step_with(
                        old(self)@,
                        old(input).stream(),
                        old(output).written(),
                        self@,
                        input.stream(),
                        output.written(),
                        None,
                        ' ',
                    ));
                }
                Ok(())
            },
            Instruct::OpenLoop => match self.open_loop() {
                Ok(()) => {
                    proof {
                        if scan(g.instrs, g.ip + 1, 0) is Some {
                            lemma_scan_close(g.instrs, g.ip + 1, 0);
                        }
                    }
                    self.instruction_ptr = self.instruction_ptr + 1;
                    proof {
                        assert(io_step_with(
                            old(self)@,
                            old(input).stream(),
                            old(output).written(),
                            self@,
                            input.stream(),
                            output.written(),
                            None,
                            ' ',
                        ));
                    }
                    Ok(())
                },
                Err(e) => {
                    proof {
                        assert(io_step_with(
                            old(self)@,
                            old(input).stream(),
                            old(output).written(),
                            self@,
                            input.stream(),
                            output.written(),
                            Some(BFErrorKind::MissingClose),
                            ' ',
                        ));
                    }
                    Err(e)
                },
            },
            Instruct::CloseLoop => match self.close_loop() {
                Ok(()) => {
                    proof {
                        assert(io_step_with(
                            old(self)@,
                            old(input).stream(),
                            old(output).written(),
                            self@,
                            input.stream(),
                            output.written(),
                            None,
                            ' ',
                        ));
                    }
                    Ok(())
                },
                Err(e) => {
                    proof {
                        assert(io_step_with(
                            old(self)@,
                            old(input).stream(),
                            old(output).written(),
                            self@,
                            input.stream(),
                            output.written(),
                            Some(BFErrorKind::MissingOpen),
                            ' ',
                        ));
                    }
                    Err(e)
                },
            },
        }
    }

    /// Run the program: repeatedly check for completion and execute one
    /// instruction, until the program is done (`Ok(true)`), an error
    /// surfaces (`Err`, reported immediately and never auto-corrected), or
    /// `fuel` instructions have executed without reaching completion
    /// (`Ok(false)`; running the engine again continues the program where it
    /// stopped). Partial output already handed to the sink is never rolled
    /// back, and on an error the state is left as it was at the point of
    /// failure.
    ///
    /// On a well-formed engine whose instruction sequence is bracket
    /// balanced, a run can fail only by moving the tape cursor below zero or
    /// by reading an input character that does not fit in a byte: bracket
    /// errors never occur, and stepping past the end never happens.
    pub fn execute<I: InputSource, O: OutputSink>(
        &mut self,
        input: &mut I,
        output: &mut O,
        fuel: usize,
    ) -> (r: Result<bool, BFError>)
        ensures
            final(self)@.instrs == old(self)@.instrs,
            wf(old(self)@) ==> wf(final(self)@),
            r == Ok::<bool, BFError>(true) ==> run_rel(
                old(self)@,
                old(input).stream(),
                old(output).written(),
                final(self)@,
                final(input).stream(),
                final(output).written(),
                None,
            ),
            r == Ok::<bool, BFError>(false) ==> runs_to(
                old(self)@,
                old(input).stream(),
                old(output).written(),
                final(self)@,
                final(input).stream(),
                final(output).written(),
                fuel as nat,
            ) && spec_done(final(self)@) == Ok::<bool, BFError>(false),
            r matches Err(e) ==> run_rel(
                old(self)@,
                old(input).stream(),
                old(output).written(),
                final(self)@,
                final(input).stream(),
                final(output).written(),
                Some(e.kind),
            ) && !(e.kind is InstructionBoundsError),
            r matches Err(e) ==> ((wf(old(self)@) && balanced(old(self)@.instrs)) ==> (
            e.kind is CellBoundsError || e.kind is InvalidInput)),
    {
        let ghost pre = self@;
        let ghost ins0 = input.stream();
        let ghost out0 = output.written();
        let mut used: usize = 0;
        loop
            invariant
                pre == old(self)@,
                ins0 == old(input).stream(),
                out0 == old(output).written(),
                used <= fuel,
                runs_to(pre, ins0, out0, self@, input.stream(), output.written(), used as nat),
                self@.instrs == pre.instrs,
                wf(pre) ==> wf(self@),
            decreases fuel - used,
        {
            match self.done() {
                Err(e) => {
                    proof {
                        if wf(pre) && balanced(pre.instrs) {
                            assert(self@.stack.len() == cnt(self@.instrs, 0, self@.ip));
                            assert(cnt(self@.instrs, 0, self@.instrs.len() as int) == 0);
                        }
                    }
                    return Err(e);
                },
                Ok(true) => {
                    return Ok(true);
                },
                Ok(false) => {},
            }
            if used == fuel {
                return Ok(false);
            }
            let ghost mid = self@;
            let ghost insm = input.stream();
            let ghost outm = output.written();
            match self.step(input, output) {
                Ok(()) => {
                    proof {
                        lemma_runs_to_snoc(
                            pre,
                            ins0,
                            out0,
                            mid,
                            insm,
                            outm,
                            self@,
                            input.stream(),
                            output.written(),
                            used as nat,
                        );
                        let c = choose|c: char|
                            io_step_with(
                                mid,
                                insm,
                                outm,
                                self@,
                                input.stream(),
                                output.written(),
                                None,
                                c,
                            );
                        if wf(pre) {
                            lemma_wf_step(mid, c);
                        }
                        assert(spec_step(mid, c).post.instrs == mid.instrs);
                    }
                    used = used + 1;
                },
                Err(e) => {
                    proof {
                        let c = choose|c: char|
                            io_step_with(
                                mid,
                                insm,
                                outm,
                                self@,
                                input.stream(),
                                output.written(),
                                Some(e.kind),
                                c,
                            );
                        if wf(pre) {
                            lemma_wf_step(mid, c);
                            if balanced(pre.instrs) {
                                lemma_no_bracket_fail(mid, c);
                            }
                        }
                        assert(outm == output.written());
                    }
                    return Err(e);
                },
            }
        }
    }
}

} // verus!
