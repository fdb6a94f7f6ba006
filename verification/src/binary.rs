//! A structural description of a WebAssembly module's binary entities.

use vstd::prelude::*;

verus! {

/// WebAssembly value types.
#[derive(Debug, Clone, Copy, PartialEq, Eq, Structural)]
pub enum ValueType {
    /// 32-bit integer (encoded as 0x7F).
    I32,
    /// 64-bit integer (encoded as 0x7E).
    I64,
}

/// The value type a byte encodes, if any.
pub open spec fn value_type_of(value: u8) -> Option<ValueType> {
    if value == 0x7F {
        Some(ValueType::I32)
    } else if value == 0x7E {
        Some(ValueType::I64)
    } else {
        None
    }
}

impl ValueType {
    /// Decodes a value type from its binary encoding; the byte is handed back
    /// when it encodes none.
    pub fn try_from_byte(value: u8) -> (r: Result<ValueType, u8>)
        ensures
            match value_type_of(value) {
                Some(t) => r == Ok::<ValueType, u8>(t),
                None => r == Err::<ValueType, u8>(value),
            },
    {
        if value == 0x7F {
            Ok(ValueType::I32)
        } else if value == 0x7E {
            Ok(ValueType::I64)
        } else {
            Err(value)
        }
    }
}

/// Represents a WebAssembly function signature.
#[derive(Debug, Clone, PartialEq, Eq)]
pub struct FuncType {
    /// Parameter types for the function.
    pub params: Vec<ValueType>,
    /// Result types returned by the function.
    pub results: Vec<ValueType>,
}

impl Default for FuncType {
    fn default() -> (r: Self)
        ensures
            r.params@.len() == 0 && r.results@.len() == 0,
    {
        FuncType { params: Vec::new(), results: Vec::new() }
    }
}

/// Declares local variables within a function body.
#[derive(Debug, Clone, PartialEq, Eq)]
pub struct FunctionLocal {
    /// Number of locals of this type.
    pub type_count: u32,
    /// The type of these local variables.
    pub value_type: ValueType,
}

/// Describes what kind of entity is being exported.
#[derive(Debug, Clone, PartialEq, Eq)]
pub enum ExportDesc {
    /// Export a function by its index.
    Func(u32),
}

/// A named export from a WebAssembly module.
#[derive(Debug, PartialEq, Eq)]
pub struct Export {
    /// The export name.
    pub name: String,
    /// The exported entity descriptor.
    pub desc: ExportDesc,
}

/// Describes what kind of entity is being imported.
#[derive(Debug, Clone, PartialEq, Eq)]
pub enum ImportDesc {
    /// Import a function with the given type index.
    Func(u32),
}

/// An import declaration for a WebAssembly module.
#[derive(Debug, PartialEq, Eq)]
pub struct Import {
    /// The module name to import from.
    pub module: String,
    /// The field name within the module.
    pub field: String,
    /// The imported entity descriptor.
    pub desc: ImportDesc,
}

/// Size constraints for memories and tables.
#[derive(Debug, Clone, PartialEq, Eq)]
pub struct Limits {
    /// Minimum size in pages (64 KiB each).
    pub min: u32,
    /// Optional maximum size in pages.
    pub max: Option<u32>,
}

/// Declares a linear memory in the module.
#[derive(Debug, Clone, PartialEq, Eq)]
pub struct Memory {
    /// Size constraints for the memory.
    pub limits: Limits,
}

/// A data segment for initializing linear memory.
#[derive(Debug, Clone, PartialEq, Eq)]
pub struct Data {
    /// Index of the memory to initialize.
    pub memory_index: u32,
    /// Byte offset within the memory.
    pub offset: u32,
    /// The initialization data.
    pub init: Vec<u8>,
}

/// The type signature of a block.
#[derive(Debug, Clone, PartialEq, Eq)]
pub enum BlockType {
    /// Block returns no values.
    Void,
    /// Block returns values of the specified types.
    Value(Vec<ValueType>),
}

/// A structured control flow block.
#[derive(Debug, Clone, PartialEq, Eq)]
pub struct Block {
    /// The block's type signature.
    pub block_type: BlockType,
}

impl BlockType {
    /// Returns the number of result values for this block type.
    pub fn result_count(&self) -> (r: usize)
        ensures
            r == match *self {
                BlockType::Void => 0,
                BlockType::Value(vt) => vt@.len(),
            },
    {
        match self {
            BlockType::Void => 0,
            BlockType::Value(vt) => vt.len(),
        }
    }
}

} // verus!
