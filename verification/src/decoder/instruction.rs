//! The decoded form of a WebAssembly operator: the integer subset Ananse
//! executes, with each operator's immediates held as plain values.

use vstd::prelude::*;

verus! {

/// The type of a structured block.
#[derive(Clone, Copy, Debug, PartialEq, Eq, Structural)]
pub enum BlockType {
    /// No inputs and no results.
    Empty,
    /// No inputs and a single result of a value type.
    Type,
    /// The inputs and results of the function type at this type index.
    FuncType(u32),
}

/// A decoded WebAssembly instruction with its immediates.
///
/// Loads and stores carry the static byte offset of their memory argument.
/// Operators outside Ananse's integer subset are kept as [`Instruction::Other`]
/// with their name, so that the lift and the executor can reject them where
/// they are reached.
#[derive(Clone, Debug, PartialEq, Eq)]
pub enum Instruction {
    Unreachable,
    Nop,
    Block { blockty: BlockType },
    Loop { blockty: BlockType },
    If { blockty: BlockType },
    Else,
    End,
    Br { relative_depth: u32 },
    BrIf { relative_depth: u32 },
    BrTable { targets: Vec<u32>, default: u32 },
    Return,
    Call { function_index: u32 },
    Drop,
    Select,
    LocalGet { local_index: u32 },
    LocalSet { local_index: u32 },
    LocalTee { local_index: u32 },
    GlobalGet { global_index: u32 },
    GlobalSet { global_index: u32 },
    I32Const { value: i32 },
    I64Const { value: i64 },
    I32Load { offset: u64 },
    I64Load { offset: u64 },
    I32Load8S { offset: u64 },
    I32Load8U { offset: u64 },
    I32Load16S { offset: u64 },
    I32Load16U { offset: u64 },
    I64Load8S { offset: u64 },
    I64Load8U { offset: u64 },
    I64Load16S { offset: u64 },
    I64Load16U { offset: u64 },
    I64Load32S { offset: u64 },
    I64Load32U { offset: u64 },
    I32Store { offset: u64 },
    I64Store { offset: u64 },
    I32Store8 { offset: u64 },
    I32Store16 { offset: u64 },
    I64Store8 { offset: u64 },
    I64Store16 { offset: u64 },
    I64Store32 { offset: u64 },
    MemorySize,
    MemoryGrow,
    I32Eqz,
    I32Eq,
    I32Ne,
    I32LtS,
    I32LtU,
    I32GtS,
    I32GtU,
    I32LeS,
    I32LeU,
    I32GeS,
    I32GeU,
    I64Eqz,
    I64Eq,
    I64Ne,
    I64LtS,
    I64LtU,
    I64GtS,
    I64GtU,
    I64LeS,
    I64LeU,
    I64GeS,
    I64GeU,
    I32Clz,
    I32Ctz,
    I32Popcnt,
    I32Add,
    I32Sub,
    I32Mul,
    I32DivS,
    I32DivU,
    I32RemS,
    I32RemU,
    I32And,
    I32Or,
    I32Xor,
    I32Shl,
    I32ShrS,
    I32ShrU,
    I32Rotl,
    I32Rotr,
    I64Clz,
    I64Ctz,
    I64Popcnt,
    I64Add,
    I64Sub,
    I64Mul,
    I64DivS,
    I64DivU,
    I64RemS,
    I64RemU,
    I64And,
    I64Or,
    I64Xor,
    I64Shl,
    I64ShrS,
    I64ShrU,
    I64Rotl,
    I64Rotr,
    I32WrapI64,
    I64ExtendI32S,
    I64ExtendI32U,
    /// `call_indirect`, which the lift schedules but the executor rejects.
    CallIndirect { type_index: u32, table_index: u32 },
    /// Any operator outside the supported subset.
    Other { name: String },
}

} // verus!
