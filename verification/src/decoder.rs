//! WebAssembly module decoding for the Ananse zkVM: values, types, and the
//! decoded-module description the rest of the pipeline reads.

pub mod error;
pub mod image;
pub mod instruction;
pub mod module;
pub mod opcode;
pub mod queries;
pub mod sections;
pub mod types;

pub use error::DecodeError;
pub use instruction::{BlockType, Instruction};
pub use image::{FuncImage, Image};
pub use module::{Module, ModuleInfo};
pub use queries::{function_constants, function_opcodes, global_initializers};
pub use sections::ModuleSections;
pub use opcode::OpCode;
pub use types::{ExportEntry, ExportKind, FnType, ImportEntry, Word, WordType};

use vstd::prelude::*;

verus! {

/// The only import module namespace Ananse accepts: deterministic WASI.
pub const WASI_MODULE: &'static str = "wasi_snapshot_preview1";

/// Bytes per WebAssembly linear-memory page.
pub const WASM32_PAGE_SIZE: usize = 65536;

} // verus!
