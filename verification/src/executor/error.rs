use vstd::prelude::*;
use crate::decoder::DecodeError;
use crate::lift::error::LiftError;

verus! {

/// A WebAssembly trap: a runtime fault that halts the program.
///
/// Traps are a legitimate outcome the proof system reasons about, so they are
/// not an executor defect.
#[derive(Debug, Clone, Copy, PartialEq, Eq, Structural)]
pub enum Trap {
    /// `unreachable` executed.
    Unreachable,
    /// Integer divide by zero.
    DivideByZero,
    /// Integer overflow.
    IntegerOverflow,
    /// Out-of-bounds memory access.
    MemoryOutOfBounds,
    /// Call stack exhausted.
    CallStackExhausted,
}

/// An error produced while executing a validated module.
#[derive(Debug, Clone, PartialEq, Eq)]
pub enum ExecuteError {
    /// The module's bytes could not be decoded into an executable image.
    Decode(DecodeError),
    /// The module could not be lifted to its register schedule.
    Lift(LiftError),
    /// The module is inconsistent with what validation guarantees.
    MalformedModule { offset: usize, message: String },
    /// An operator outside the supported subset was reached.
    UnsupportedOperator { offset: usize, message: String },
    /// No runnable entry point matched the requested entry.
    UndefinedEntry,
    /// The entry was given the wrong number of arguments.
    ArgumentCountMismatch { expected: usize, actual: usize },
    /// The operand-stack height execution reached disagrees with the schedule.
    ScheduleMismatch { func_index: u32, pc: u32, schedule: u32, actual: u32 },
    /// The program trapped.
    Trap(Trap),
    /// A host call failed.
    Host { module: String, name: String, message: String },
}

impl ExecuteError {
    /// Reports an inconsistency a validated module never exhibits.
    pub fn invalid_binary(message: &str) -> (r: Self)
        ensures
            r matches ExecuteError::MalformedModule { offset, message: m } && offset == 0
                && m@ == message@,
    {
        ExecuteError::MalformedModule { offset: 0, message: message.to_owned() }
    }
}

} // verus!
