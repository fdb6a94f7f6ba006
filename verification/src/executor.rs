//! Schedule-driven interpreter and reference semantics for the Ananse zkVM.

pub mod entry;
pub mod error;
pub mod execution;
pub mod host;
pub mod image;
pub mod interp;
pub mod interpreter;
pub mod memory;
pub mod record;
pub mod runtime;
pub mod value;

pub use error::{ExecuteError, Trap};
pub use record::{MemAccess, RegAccess, StepObserver, StepRecord, Transition};
pub use runtime::ExecutionResult;
pub use host::{Host, HostAction, NoHost};
pub use entry::Entry;
pub use execution::execute;
