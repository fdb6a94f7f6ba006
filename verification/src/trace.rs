//! Register-column layout and linear-memory access log for the Ananse zkVM.
//!
//! One executed instruction is one trace block: a single row, 1:1 with the
//! source bytecode. The operand stack, locals, globals, and linear memory are
//! lifted into one flat address space; each row records the accesses its
//! instruction made on a fixed-width value bus, alongside the same accesses
//! sorted by address then time.

pub mod access;
pub mod error;
pub mod fill;
pub mod frame;
pub mod layout;
pub mod memory;
pub mod selector;
pub mod sorting;

pub use error::TraceError;
