//! Runtime errors that a program can report while being built or executed.

use vstd::prelude::*;

verus! {

/// The kind of failure that stopped a run.
#[derive(Debug, Clone, PartialEq, Eq, Structural)]
pub enum BFErrorKind {
    /// A closing bracket executed with no opening bracket on the loop stack.
    MissingOpen,
    /// An opening bracket has no matching closing bracket reachable.
    MissingClose,
    /// An input character's code point does not fit in a single byte.
    InvalidInput,
    /// A pointer move would take the tape cursor below zero.
    CellBoundsError,
    /// The instruction cursor was advanced past the end of the sequence and
    /// then stepped again.
    InstructionBoundsError,
}

/// An error value returned by the execution engine; never a panic.
#[derive(Debug, Clone, PartialEq, Eq, Structural)]
pub struct BFError {
    /// Kind of failure.
    pub kind: BFErrorKind,
}

/// The human-readable description of each failure kind.
pub open spec fn spec_message(kind: BFErrorKind) -> Seq<char> {
    match kind {
        BFErrorKind::MissingClose => "The program has an open bracket with no close bracket."@,
        BFErrorKind::MissingOpen => "The program has a close bracket with no open bracket."@,
        BFErrorKind::InvalidInput => "An invalid value was passed to BF input."@,
        BFErrorKind::CellBoundsError => "Tried to access cell out of bounds"@,
        BFErrorKind::InstructionBoundsError => "Tried to process instruction out of bounds."@,
    }
}

impl BFError {
    /// A human-readable description of the error, suitable for display.
    pub fn message(&self) -> (r: &'static str)
        ensures
            r@ == spec_message(self.kind),
    {
        match self.kind {
            BFErrorKind::MissingClose => "The program has an open bracket with no close bracket.",
            BFErrorKind::MissingOpen => "The program has a close bracket with no open bracket.",
            BFErrorKind::InvalidInput => "An invalid value was passed to BF input.",
            BFErrorKind::CellBoundsError => "Tried to access cell out of bounds",
            BFErrorKind::InstructionBoundsError => "Tried to process instruction out of bounds.",
        }
    }
}

} // verus!
