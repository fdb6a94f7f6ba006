//! Errors while turning an execution's record stream into a trace.

use vstd::prelude::*;
use crate::lift::program::Register;

verus! {

/// A failure encountered while turning an execution's record stream into a trace.
#[derive(Debug, Clone, PartialEq, Eq, Structural)]
pub enum TraceError {
    /// The execution produced no records.
    EmptyExecution,
    /// The execution spans a defined-function call, which cross-frame tracing
    /// does not yet support.
    UnsupportedCall,
    /// No lifted function exists for the index.
    InconsistentSchedule { func_index: u32 },
    /// A register lies outside the register file.
    RegisterOutOfRange { register: Register, width: usize },
    /// An operator performed more accesses than the value bus holds.
    AccessOverflow { step: usize, count: usize },
    /// A read on the unified access log disagrees with the last access to its
    /// address.
    AccessInconsistent { address: u64, step: usize },
    /// A load disagrees with the value last established at its address.
    MemoryInconsistent { address: u64, step: usize },
    /// The sorted access log is not strictly ordered at this position.
    AccessLogNotStrictlyOrdered { position: usize },
}

} // verus!
