//! Errors raised while building AIR-side data from a lifted program.

use vstd::prelude::*;

verus! {

/// A failure encountered while building AIR-side data from a lifted program.
#[derive(Debug, Clone, PartialEq, Eq)]
pub enum AirError {
    /// The per-program-point opcode sequence and the lift schedule disagree on
    /// the function body's length; they must describe the same program.
    ScheduleLengthMismatch {
        /// Length of the supplied per-program-point opcode sequence.
        opcodes: usize,
        /// Length of the lift schedule.
        schedule: usize,
    },
    /// The function body has more program points than the program ROM can pack a
    /// control-flow edge for while staying injective below the Goldilocks prime.
    ProgramTooLarge {
        /// Number of program points in the offending function body.
        body_len: usize,
    },
    /// The LogUp witness columns could not be built, most often because a trace row
    /// looks up a control-flow edge absent from the program ROM.
    LookupBuild(String),
    /// The padded trace is too short to embed the program ROM.
    TraceTooShortForRom {
        /// Padded height of the trace.
        trace_len: usize,
        /// Number of entries in the program ROM.
        rom_len: usize,
    },
    /// The padded trace is too short to embed the initial-state table: the
    /// boundary lookup needs one summed row per table entry.
    TraceTooShortForBoundary {
        /// Padded height of the trace.
        trace_len: usize,
        /// Number of entries in the initial-state table.
        table_len: usize,
    },
    /// The LogUp folding challenge collided with a folded value, leaving a zero
    /// denominator.
    DegenerateChallenge,
}

} // verus!
