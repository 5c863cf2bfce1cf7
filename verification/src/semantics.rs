//! The mathematical model of the machine: the instruction alphabet, the
//! abstract machine state, and a one-step transition function that the
//! executable engine is proved to implement.

use vstd::prelude::*;
use crate::errors::{BFError, BFErrorKind};

verus! {

/// A single machine instruction.
///
/// The `isize` payloads of `MvPtr` and `MvValue` permit magnitudes greater
/// than one so that consecutive identical moves may later be merged by an
/// optimization pass; the builder itself always emits a delta of plus or
/// minus one.
#[derive(Debug, PartialEq, Eq, Clone, Copy)]
pub enum Instruct {
    /// Shift the tape cursor by the given delta.
    MvPtr(isize),
    /// Add the given delta to the byte at the tape cursor, wrapping modulo 256.
    MvValue(isize),
    /// Emit the byte at the tape cursor as a character.
    Output,
    /// Read one character from the host and store its low byte at the cursor.
    Input,
    /// Conditional loop entry.
    OpenLoop,
    /// Loop return point.
    CloseLoop,
}

/// The abstract state of the execution engine.
pub ghost struct MachineState {
    /// The instruction sequence being executed; never mutated by execution.
    pub instrs: Seq<Instruct>,
    /// Index of the next instruction to execute.
    pub ip: int,
    /// The memory tape, grown lazily with zero-valued cells.
    pub cells: Seq<u8>,
    /// Index of the current tape cell.
    pub cp: int,
    /// Positions of the entered, not yet closed, `OpenLoop` instructions.
    pub stack: Seq<int>,
}

/// The outcome of one abstract machine step.
pub ghost struct StepOutcome {
    /// The machine state after the step (also on failure: the tape has
    /// already been grown when a step fails).
    pub post: MachineState,
    /// `None` on success, or the kind of failure.
    pub err: Option<BFErrorKind>,
    /// The byte emitted to the output sink, if the step executed `Output`.
    pub emit: Option<u8>,
    /// Whether the step took a character from the input source.
    pub read: bool,
}

/// The instruction that a source character denotes, if any; every other
/// character is commentary.
pub open spec fn char_instr(c: char) -> Option<Instruct> {
    if c == '>' {
        Some(Instruct::MvPtr(1isize))
    } else if c == '<' {
        Some(Instruct::MvPtr(-1isize))
    } else if c == '-' {
        Some(Instruct::MvValue(-1isize))
    } else if c == '+' {
        Some(Instruct::MvValue(1isize))
    } else if c == '.' {
        Some(Instruct::Output)
    } else if c == ',' {
        Some(Instruct::Input)
    } else if c == '[' {
        Some(Instruct::OpenLoop)
    } else if c == ']' {
        Some(Instruct::CloseLoop)
    } else {
        None
    }
}

/// Whether a source character is one of the eight recognized command symbols.
pub open spec fn is_command(c: char) -> bool {
    char_instr(c) is Some
}

/// The instruction sequence that a piece of source text denotes: one
/// instruction per recognized command character, in source order.
pub open spec fn parse(s: Seq<char>) -> Seq<Instruct>
    decreases s.len(),
{
    if s.len() == 0 {
        Seq::empty()
    } else {
        match char_instr(s[0]) {
            Some(i) => seq![i] + parse(s.drop_first()),
            None => parse(s.drop_first()),
        }
    }
}

/// How many characters of the text are recognized command symbols.
pub open spec fn command_count(s: Seq<char>) -> nat
    decreases s.len(),
{
    if s.len() == 0 {
        0
    } else {
        (if is_command(s[0]) {
            1nat
        } else {
            0nat
        }) + command_count(s.drop_first())
    }
}

/// The instructions that the builder can emit: unit moves and the four
/// parameterless commands.
pub open spec fn builder_emitted(i: Instruct) -> bool {
    ||| i == Instruct::MvPtr(1isize)
    ||| i == Instruct::MvPtr(-1isize)
    ||| i == Instruct::MvValue(1isize)
    ||| i == Instruct::MvValue(-1isize)
    ||| i == Instruct::Output
    ||| i == Instruct::Input
    ||| i == Instruct::OpenLoop
    ||| i == Instruct::CloseLoop
}

/// The initial state of an engine over the given instruction sequence.
pub open spec fn init_state(instrs: Seq<Instruct>) -> MachineState {
    MachineState {
        instrs,
        ip: 0,
        cells: Seq::empty(),
        cp: 0,
        stack: Seq::empty(),
    }
}

/// The tape after growing it, with zero-valued cells, until the cell at
/// index `cp` is addressable. Cells are never shrunk.
pub open spec fn grown(cells: Seq<u8>, cp: int) -> Seq<u8> {
    if cells.len() > cp {
        cells
    } else {
        cells + Seq::new((cp + 1 - cells.len()) as nat, |i: int| 0u8)
    }
}

/// Adding a delta to a cell byte: the delta is truncated to a signed 8-bit
/// value and added with wraparound (modulo-256) semantics.
pub open spec fn cell_add(b: u8, d: isize) -> u8 {
    b.wrapping_add_signed(d as i8)
}

/// The forward scan for the closing bracket that matches an open loop:
/// starting at `i` with `d` enclosing unmatched opens, the position of the
/// first `CloseLoop` at nesting depth zero, if any.
pub open spec fn scan(instrs: Seq<Instruct>, i: int, d: int) -> Option<int>
    decreases instrs.len() - i,
{
    if i < 0 || i >= instrs.len() {
        None
    } else if instrs[i] is CloseLoop {
        if d == 0 {
            Some(i)
        } else {
            scan(instrs, i + 1, d - 1)
        }
    } else if instrs[i] is OpenLoop {
        scan(instrs, i + 1, d + 1)
    } else {
        scan(instrs, i + 1, d)
    }
}

/// The number of `OpenLoop` minus the number of `CloseLoop` instructions in
/// the half-open range `[i, j)`.
pub open spec fn cnt(instrs: Seq<Instruct>, i: int, j: int) -> int
    decreases j - i,
{
    if i >= j {
        0
    } else {
        cnt(instrs, i, j - 1) + (if instrs[j - 1] is OpenLoop {
            1int
        } else if instrs[j - 1] is CloseLoop {
            -1int
        } else {
            0int
        })
    }
}

/// A bracket-balanced instruction sequence: no prefix closes more loops than
/// it opens, and every open loop is eventually closed.
pub open spec fn balanced(instrs: Seq<Instruct>) -> bool {
    &&& cnt(instrs, 0, instrs.len() as int) == 0
    &&& forall|p: int| 0 <= p <= instrs.len() ==> cnt(instrs, 0, p) >= 0
}

/// Well-formedness of a machine state: the cursors are in range and the loop
/// stack records exactly the unmatched open brackets to the left of the
/// instruction cursor, innermost on top.
pub open spec fn wf(s: MachineState) -> bool {
    &&& 0 <= s.ip <= s.instrs.len()
    &&& 0 <= s.cp <= usize::MAX
    &&& s.stack.len() == cnt(s.instrs, 0, s.ip)
    &&& forall|k: int|
        0 <= k < s.stack.len() ==> {
            &&& 0 <= #[trigger] s.stack[k] < s.instrs.len()
            &&& s.instrs[s.stack[k]] is OpenLoop
            &&& cnt(s.instrs, 0, s.stack[k]) == k
        }
}

/// Whether the engine is done: true iff the instruction cursor is at or past
/// the end and the loop stack is empty; reaching the end with a non-empty
/// stack is the `MissingClose` error.
pub open spec fn spec_done(s: MachineState) -> Result<bool, BFError> {
    if s.ip >= s.instrs.len() {
        if s.stack.len() > 0 {
            Err(BFError { kind: BFErrorKind::MissingClose })
        } else {
            Ok(true)
        }
    } else {
        Ok(false)
    }
}

/// One step of the abstract machine from state `s`, where `c` is the
/// character the input source would yield. The tape is grown first, so the
/// current cell is addressable even when the step then fails.
pub open spec fn spec_step(s: MachineState, c: char) -> StepOutcome {
    let cells = grown(s.cells, s.cp);
    let g = MachineState { cells, ..s };
    if !(0 <= s.ip < s.instrs.len()) {
        StepOutcome {
            post: g,
            err: Some(BFErrorKind::InstructionBoundsError),
            emit: None,
            read: false,
        }
    } else {
        match s.instrs[s.ip] {
            Instruct::MvPtr(d) => if 0 <= s.cp + d <= usize::MAX {
                StepOutcome {
                    post: MachineState { ip: s.ip + 1, cp: s.cp + d, ..g },
                    err: None,
                    emit: None,
                    read: false,
                }
            } else {
                StepOutcome { post: g, err: Some(BFErrorKind::CellBoundsError), emit: None, read: false }
            },
            Instruct::MvValue(d) => StepOutcome {
                post: MachineState {
                    ip: s.ip + 1,
                    cells: cells.update(s.cp, cell_add(cells[s.cp], d)),
                    ..g
                },
                err: None,
                emit: None,
                read: false,
            },
            Instruct::Output => StepOutcome {
                post: MachineState { ip: s.ip + 1, ..g },
                err: None,
                emit: Some(cells[s.cp]),
                read: false,
            },
            Instruct::Input => if c as u32 >= 256 {
                StepOutcome { post: g, err: Some(BFErrorKind::InvalidInput), emit: None, read: true }
            } else {
                StepOutcome {
                    post: MachineState {
                        ip: s.ip + 1,
                        cells: cells.update(s.cp, (c as u32) as u8),
                        ..g
                    },
                    err: None,
                    emit: None,
                    read: true,
                }
            },
            Instruct::OpenLoop => if cells[s.cp] != 0 {
                StepOutcome {
                    post: MachineState { ip: s.ip + 1, stack: s.stack.push(s.ip), ..g },
                    err: None,
                    emit: None,
                    read: false,
                }
            } else {
                match scan(s.instrs, s.ip + 1, 0) {
                    Some(k) => StepOutcome {
                        post: MachineState { ip: k + 1, ..g },
                        err: None,
                        emit: None,
                        read: false,
                    },
                    None => StepOutcome {
                        post: g,
                        err: Some(BFErrorKind::MissingClose),
                        emit: None,
                        read: false,
                    },
                }
            },
            Instruct::CloseLoop => if s.stack.len() == 0 {
                StepOutcome { post: g, err: Some(BFErrorKind::MissingOpen), emit: None, read: false }
            } else {
                StepOutcome {
                    post: MachineState { ip: s.stack.last(), stack: s.stack.drop_last(), ..g },
                    err: None,
                    emit: None,
                    read: false,
                }
            },
        }
    }
}

/// How one character taken from an input source relates the source's stream
/// before and after the read: the head of a non-empty stream is handed out
/// and removed; an exhausted stream stays exhausted and the character read
/// is arbitrary.
pub open spec fn input_taken(ins0: Seq<char>, ins1: Seq<char>, c: char) -> bool {
    &&& ins0.len() > 0 ==> c == ins0[0] && ins1 == ins0.drop_first()
    &&& ins0.len() == 0 ==> ins1.len() == 0
}

/// How one executed input instruction relates the engine and the input
/// source before and after: the character taken is stored at the current
/// cell, unless its code point does not fit in a byte, in which case the run
/// fails with `InvalidInput` and the tape is not mutated.
pub open spec fn input_cell_rel(
    pre: MachineState,
    post: MachineState,
    ins0: Seq<char>,
    ins1: Seq<char>,
    r: Result<(), BFError>,
    c: char,
) -> bool {
    &&& input_taken(ins0, ins1, c)
    &&& if c as u32 >= 256 {
        r == Err::<(), BFError>(BFError { kind: BFErrorKind::InvalidInput }) && post == pre
    } else {
        r == Ok::<(), BFError>(()) && post == MachineState {
            cells: pre.cells.update(pre.cp, (c as u32) as u8),
            ip: pre.ip,
            cp: pre.cp,
            stack: pre.stack,
            instrs: pre.instrs,
        }
    }
}

/// One executed engine step with its effect on the input stream and on the
/// written output, where `c` is the character the input source yielded and
/// `err` is `None` for a successful step.
pub open spec fn io_step_with(
    pre: MachineState,
    ins0: Seq<char>,
    out0: Seq<char>,
    post: MachineState,
    ins1: Seq<char>,
    out1: Seq<char>,
    err: Option<BFErrorKind>,
    c: char,
) -> bool {
    let o = spec_step(pre, c);
    &&& o.err == err
    &&& post == o.post
    &&& (if o.read {
        input_taken(ins0, ins1, c)
    } else {
        ins1 == ins0
    })
    &&& out1 == (match o.emit {
        Some(b) => out0.push(b as char),
        None => out0,
    })
}

/// One executed engine step, for some character yielded by the input source.
pub open spec fn io_step(
    pre: MachineState,
    ins0: Seq<char>,
    out0: Seq<char>,
    post: MachineState,
    ins1: Seq<char>,
    out1: Seq<char>,
    err: Option<BFErrorKind>,
) -> bool {
    exists|c: char| io_step_with(pre, ins0, out0, post, ins1, out1, err, c)
}

/// `n` successful engine steps from `pre` reach `post`, taking the input
/// stream from `ins0` to `ins1` and the written output from `out0` to `out1`.
pub open spec fn runs_to(
    pre: MachineState,
    ins0: Seq<char>,
    out0: Seq<char>,
    post: MachineState,
    ins1: Seq<char>,
    out1: Seq<char>,
    n: nat,
) -> bool
    decreases n,
{
    if n == 0 {
        post == pre && ins1 == ins0 && out1 == out0
    } else {
        exists|mid: MachineState, insm: Seq<char>, outm: Seq<char>|
            {
                &&& runs_to(pre, ins0, out0, mid, insm, outm, (n - 1) as nat)
                &&& io_step(mid, insm, outm, post, ins1, out1, None)
            }
    }
}

/// The error kind that a run's result reports, if any.
pub open spec fn err_of(r: Result<(), BFError>) -> Option<BFErrorKind> {
    match r {
        Ok(_) => None,
        Err(e) => Some(e.kind),
    }
}

/// How a whole run relates the engine's state, the input stream and the
/// written output before and after: some number of successful steps, after
/// which either completion was reached (`r` is `None`), the completion check
/// found an open loop never closed, or one more step failed with `r`'s kind.
pub open spec fn run_rel(
    pre: MachineState,
    ins0: Seq<char>,
    out0: Seq<char>,
    post: MachineState,
    ins1: Seq<char>,
    out1: Seq<char>,
    r: Option<BFErrorKind>,
) -> bool {
    match r {
        None => exists|n: nat|
            runs_to(pre, ins0, out0, post, ins1, out1, n) && spec_done(post) == Ok::<
                bool,
                BFError,
            >(true),
        Some(kind) => {
            ||| (kind == BFErrorKind::MissingClose && exists|n: nat|
                runs_to(pre, ins0, out0, post, ins1, out1, n) && post.ip >= post.instrs.len()
                    && post.stack.len() > 0)
            ||| exists|n: nat, mid: MachineState, insm: Seq<char>|
                {
                    &&& runs_to(pre, ins0, out0, mid, insm, out1, n)
                    &&& io_step(mid, insm, out1, post, ins1, out1, Some(kind))
                }
        },
    }
}

} // verus!
