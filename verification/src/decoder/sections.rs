//! The sections of a WebAssembly module as plain data: what the binary
//! declares, before any of Ananse's rules are applied to it.
//!
//! A binary reader fills a [`ModuleSections`] from a module's bytes, one entry
//! per declaration in binary order; the decoder, the lift and the executor
//! derive everything else from it.

use vstd::prelude::*;
use crate::decoder::instruction::Instruction;
use crate::decoder::types::{ExportKind, Word};

verus! {

/// A value type as the binary declares it.
#[derive(Clone, Copy, Debug, PartialEq, Eq, Structural)]
pub enum ValueKind {
    /// `i32`.
    I32,
    /// `i64`.
    I64,
    /// Any other value type (floats, vectors, references).
    Other,
}

/// One entry of the type section.
#[derive(Clone, Debug, PartialEq, Eq)]
pub struct TypeDecl {
    /// Whether the entry is a function type (other composite types carry no
    /// signature).
    pub is_func: bool,
    /// Parameter types of a function type.
    pub params: Vec<ValueKind>,
    /// Result types of a function type.
    pub results: Vec<ValueKind>,
}

/// One entry of the import section.
#[derive(Clone, Debug, PartialEq, Eq)]
pub struct ImportDecl {
    /// The import's module namespace.
    pub module: String,
    /// The imported item's name.
    pub name: String,
    /// The type index of an imported function; `None` for a non-function import.
    pub func_type: Option<u32>,
}

/// One entry of the memory section.
#[derive(Clone, Copy, Debug, PartialEq, Eq, Structural)]
pub struct MemoryDecl {
    /// Initial size in pages.
    pub initial: u64,
    /// Maximum size in pages, if declared.
    pub maximum: Option<u64>,
}

/// One entry of the export section.
#[derive(Clone, Debug, PartialEq, Eq)]
pub struct ExportDecl {
    /// The export's name.
    pub name: String,
    /// The exported item's kind; `None` for kinds Ananse does not track.
    pub kind: Option<ExportKind>,
    /// The item's index within its index space.
    pub index: u32,
}

/// How a data segment is placed.
#[derive(Clone, Copy, Debug, PartialEq, Eq, Structural)]
pub enum DataMode {
    /// A passive segment, copied only on request.
    Passive,
    /// An active segment written at instantiation, at the offset its constant
    /// expression evaluates to; `None` when that expression is not a single
    /// integer constant.
    Active(Option<Word>),
}

/// One entry of the data section.
#[derive(Clone, Debug, PartialEq, Eq)]
pub struct DataDecl {
    /// Placement of the segment.
    pub mode: DataMode,
    /// The segment's bytes.
    pub bytes: Vec<u8>,
}

/// One entry of the code section.
#[derive(Clone, Debug, PartialEq, Eq)]
pub struct BodyDecl {
    /// Declared locals as `(count, type)` runs, in declaration order.
    pub locals: Vec<(u32, ValueKind)>,
    /// The body's operators in program order, its final `end` included.
    pub instructions: Vec<Instruction>,
    /// The byte offset of each operator within the module.
    pub offsets: Vec<usize>,
}

/// The sections of a module, each in binary order.
#[derive(Clone, Debug, PartialEq, Eq)]
pub struct ModuleSections {
    /// The type section.
    pub types: Vec<TypeDecl>,
    /// The import section.
    pub imports: Vec<ImportDecl>,
    /// The function section: the type index of each defined function.
    pub functions: Vec<u32>,
    /// The memory section.
    pub memories: Vec<MemoryDecl>,
    /// The global section: each global's initial value, `None` when its
    /// initializer is not a single integer constant.
    pub globals: Vec<Option<Word>>,
    /// The export section.
    pub exports: Vec<ExportDecl>,
    /// The data section.
    pub data: Vec<DataDecl>,
    /// The code section.
    pub bodies: Vec<BodyDecl>,
}

} // verus!
