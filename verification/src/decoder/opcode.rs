//! Opcode identities: the one value per operator of Ananse's integer subset
//! that the execution records and the trace selectors key on.

use vstd::prelude::*;
use crate::decoder::error::DecodeError;
use crate::decoder::instruction::Instruction;

verus! {

/// The identity of an operator in Ananse's integer subset of WebAssembly.
#[derive(Clone, Copy, Debug, PartialEq, Eq, Hash, Structural)]
pub enum OpCode {
    Unreachable,
    Nop,
    Block,
    Loop,
    If,
    Else,
    End,
    Br,
    BrIf,
    BrTable,
    Return,
    Call,
    Drop,
    Select,
    LocalGet,
    LocalSet,
    LocalTee,
    GlobalGet,
    GlobalSet,
    I32Const,
    I64Const,
    I32Load,
    I64Load,
    I32Load8S,
    I32Load8U,
    I32Load16S,
    I32Load16U,
    I64Load8S,
    I64Load8U,
    I64Load16S,
    I64Load16U,
    I64Load32S,
    I64Load32U,
    I32Store,
    I64Store,
    I32Store8,
    I32Store16,
    I64Store8,
    I64Store16,
    I64Store32,
    MemorySize,
    MemoryGrow,
    I32Eqz,
    I32Eq,
    I32Ne,
    I32LtS,
    I32LtU,
    I32GtS,
    I32GtU,
    I32LeS,
    I32LeU,
    I32GeS,
    I32GeU,
    I64Eqz,
    I64Eq,
    I64Ne,
    I64LtS,
    I64LtU,
    I64GtS,
    I64GtU,
    I64LeS,
    I64LeU,
    I64GeS,
    I64GeU,
    I32Clz,
    I32Ctz,
    I32Popcnt,
    I32Add,
    I32Sub,
    I32Mul,
    I32DivS,
    I32DivU,
    I32RemS,
    I32RemU,
    I32And,
    I32Or,
    I32Xor,
    I32Shl,
    I32ShrS,
    I32ShrU,
    I32Rotl,
    I32Rotr,
    I64Clz,
    I64Ctz,
    I64Popcnt,
    I64Add,
    I64Sub,
    I64Mul,
    I64DivS,
    I64DivU,
    I64RemS,
    I64RemU,
    I64And,
    I64Or,
    I64Xor,
    I64Shl,
    I64ShrS,
    I64ShrU,
    I64Rotl,
    I64Rotr,
    I32WrapI64,
    I64ExtendI32S,
    I64ExtendI32U,
}

/// The position of an opcode in the fixed enumeration of the subset, from `0`
/// (`unreachable`) to `102` (`i64.extend_i32_u`).
pub open spec fn opcode_position(op: OpCode) -> nat {
    match op {
        OpCode::Unreachable => 0,
        OpCode::Nop => 1,
        OpCode::Block => 2,
        OpCode::Loop => 3,
        OpCode::If => 4,
        OpCode::Else => 5,
        OpCode::End => 6,
        OpCode::Br => 7,
        OpCode::BrIf => 8,
        OpCode::BrTable => 9,
        OpCode::Return => 10,
        OpCode::Call => 11,
        OpCode::Drop => 12,
        OpCode::Select => 13,
        OpCode::LocalGet => 14,
        OpCode::LocalSet => 15,
        OpCode::LocalTee => 16,
        OpCode::GlobalGet => 17,
        OpCode::GlobalSet => 18,
        OpCode::I32Const => 19,
        OpCode::I64Const => 20,
        OpCode::I32Load => 21,
        OpCode::I64Load => 22,
        OpCode::I32Load8S => 23,
        OpCode::I32Load8U => 24,
        OpCode::I32Load16S => 25,
        OpCode::I32Load16U => 26,
        OpCode::I64Load8S => 27,
        OpCode::I64Load8U => 28,
        OpCode::I64Load16S => 29,
        OpCode::I64Load16U => 30,
        OpCode::I64Load32S => 31,
        OpCode::I64Load32U => 32,
        OpCode::I32Store => 33,
        OpCode::I64Store => 34,
        OpCode::I32Store8 => 35,
        OpCode::I32Store16 => 36,
        OpCode::I64Store8 => 37,
        OpCode::I64Store16 => 38,
        OpCode::I64Store32 => 39,
        OpCode::MemorySize => 40,
        OpCode::MemoryGrow => 41,
        OpCode::I32Eqz => 42,
        OpCode::I32Eq => 43,
        OpCode::I32Ne => 44,
        OpCode::I32LtS => 45,
        OpCode::I32LtU => 46,
        OpCode::I32GtS => 47,
        OpCode::I32GtU => 48,
        OpCode::I32LeS => 49,
        OpCode::I32LeU => 50,
        OpCode::I32GeS => 51,
        OpCode::I32GeU => 52,
        OpCode::I64Eqz => 53,
        OpCode::I64Eq => 54,
        OpCode::I64Ne => 55,
        OpCode::I64LtS => 56,
        OpCode::I64LtU => 57,
        OpCode::I64GtS => 58,
        OpCode::I64GtU => 59,
        OpCode::I64LeS => 60,
        OpCode::I64LeU => 61,
        OpCode::I64GeS => 62,
        OpCode::I64GeU => 63,
        OpCode::I32Clz => 64,
        OpCode::I32Ctz => 65,
        OpCode::I32Popcnt => 66,
        OpCode::I32Add => 67,
        OpCode::I32Sub => 68,
        OpCode::I32Mul => 69,
        OpCode::I32DivS => 70,
        OpCode::I32DivU => 71,
        OpCode::I32RemS => 72,
        OpCode::I32RemU => 73,
        OpCode::I32And => 74,
        OpCode::I32Or => 75,
        OpCode::I32Xor => 76,
        OpCode::I32Shl => 77,
        OpCode::I32ShrS => 78,
        OpCode::I32ShrU => 79,
        OpCode::I32Rotl => 80,
        OpCode::I32Rotr => 81,
        OpCode::I64Clz => 82,
        OpCode::I64Ctz => 83,
        OpCode::I64Popcnt => 84,
        OpCode::I64Add => 85,
        OpCode::I64Sub => 86,
        OpCode::I64Mul => 87,
        OpCode::I64DivS => 88,
        OpCode::I64DivU => 89,
        OpCode::I64RemS => 90,
        OpCode::I64RemU => 91,
        OpCode::I64And => 92,
        OpCode::I64Or => 93,
        OpCode::I64Xor => 94,
        OpCode::I64Shl => 95,
        OpCode::I64ShrS => 96,
        OpCode::I64ShrU => 97,
        OpCode::I64Rotl => 98,
        OpCode::I64Rotr => 99,
        OpCode::I32WrapI64 => 100,
        OpCode::I64ExtendI32S => 101,
        OpCode::I64ExtendI32U => 102,
    }
}

/// The opcode at a position of the enumeration, if any.
pub open spec fn opcode_at(position: nat) -> Option<OpCode> {
    if position == 0 {
        Some(OpCode::Unreachable)
    } else if position == 1 {
        Some(OpCode::Nop)
    } else if position == 2 {
        Some(OpCode::Block)
    } else if position == 3 {
        Some(OpCode::Loop)
    } else if position == 4 {
        Some(OpCode::If)
    } else if position == 5 {
        Some(OpCode::Else)
    } else if position == 6 {
        Some(OpCode::End)
    } else if position == 7 {
        Some(OpCode::Br)
    } else if position == 8 {
        Some(OpCode::BrIf)
    } else if position == 9 {
        Some(OpCode::BrTable)
    } else if position == 10 {
        Some(OpCode::Return)
    } else if position == 11 {
        Some(OpCode::Call)
    } else if position == 12 {
        Some(OpCode::Drop)
    } else if position == 13 {
        Some(OpCode::Select)
    } else if position == 14 {
        Some(OpCode::LocalGet)
    } else if position == 15 {
        Some(OpCode::LocalSet)
    } else if position == 16 {
        Some(OpCode::LocalTee)
    } else if position == 17 {
        Some(OpCode::GlobalGet)
    } else if position == 18 {
        Some(OpCode::GlobalSet)
    } else if position == 19 {
        Some(OpCode::I32Const)
    } else if position == 20 {
        Some(OpCode::I64Const)
    } else if position == 21 {
        Some(OpCode::I32Load)
    } else if position == 22 {
        Some(OpCode::I64Load)
    } else if position == 23 {
        Some(OpCode::I32Load8S)
    } else if position == 24 {
        Some(OpCode::I32Load8U)
    } else if position == 25 {
        Some(OpCode::I32Load16S)
    } else if position == 26 {
        Some(OpCode::I32Load16U)
    } else if position == 27 {
        Some(OpCode::I64Load8S)
    } else if position == 28 {
        Some(OpCode::I64Load8U)
    } else if position == 29 {
        Some(OpCode::I64Load16S)
    } else if position == 30 {
        Some(OpCode::I64Load16U)
    } else if position == 31 {
        Some(OpCode::I64Load32S)
    } else if position == 32 {
        Some(OpCode::I64Load32U)
    } else if position == 33 {
        Some(OpCode::I32Store)
    } else if position == 34 {
        Some(OpCode::I64Store)
    } else if position == 35 {
        Some(OpCode::I32Store8)
    } else if position == 36 {
        Some(OpCode::I32Store16)
    } else if position == 37 {
        Some(OpCode::I64Store8)
    } else if position == 38 {
        Some(OpCode::I64Store16)
    } else if position == 39 {
        Some(OpCode::I64Store32)
    } else if position == 40 {
        Some(OpCode::MemorySize)
    } else if position == 41 {
        Some(OpCode::MemoryGrow)
    } else if position == 42 {
        Some(OpCode::I32Eqz)
    } else if position == 43 {
        Some(OpCode::I32Eq)
    } else if position == 44 {
        Some(OpCode::I32Ne)
    } else if position == 45 {
        Some(OpCode::I32LtS)
    } else if position == 46 {
        Some(OpCode::I32LtU)
    } else if position == 47 {
        Some(OpCode::I32GtS)
    } else if position == 48 {
        Some(OpCode::I32GtU)
    } else if position == 49 {
        Some(OpCode::I32LeS)
    } else if position == 50 {
        Some(OpCode::I32LeU)
    } else if position == 51 {
        Some(OpCode::I32GeS)
    } else if position == 52 {
        Some(OpCode::I32GeU)
    } else if position == 53 {
        Some(OpCode::I64Eqz)
    } else if position == 54 {
        Some(OpCode::I64Eq)
    } else if position == 55 {
        Some(OpCode::I64Ne)
    } else if position == 56 {
        Some(OpCode::I64LtS)
    } else if position == 57 {
        Some(OpCode::I64LtU)
    } else if position == 58 {
        Some(OpCode::I64GtS)
    } else if position == 59 {
        Some(OpCode::I64GtU)
    } else if position == 60 {
        Some(OpCode::I64LeS)
    } else if position == 61 {
        Some(OpCode::I64LeU)
    } else if position == 62 {
        Some(OpCode::I64GeS)
    } else if position == 63 {
        Some(OpCode::I64GeU)
    } else if position == 64 {
        Some(OpCode::I32Clz)
    } else if position == 65 {
        Some(OpCode::I32Ctz)
    } else if position == 66 {
        Some(OpCode::I32Popcnt)
    } else if position == 67 {
        Some(OpCode::I32Add)
    } else if position == 68 {
        Some(OpCode::I32Sub)
    } else if position == 69 {
        Some(OpCode::I32Mul)
    } else if position == 70 {
        Some(OpCode::I32DivS)
    } else if position == 71 {
        Some(OpCode::I32DivU)
    } else if position == 72 {
        Some(OpCode::I32RemS)
    } else if position == 73 {
        Some(OpCode::I32RemU)
    } else if position == 74 {
        Some(OpCode::I32And)
    } else if position == 75 {
        Some(OpCode::I32Or)
    } else if position == 76 {
        Some(OpCode::I32Xor)
    } else if position == 77 {
        Some(OpCode::I32Shl)
    } else if position == 78 {
        Some(OpCode::I32ShrS)
    } else if position == 79 {
        Some(OpCode::I32ShrU)
    } else if position == 80 {
        Some(OpCode::I32Rotl)
    } else if position == 81 {
        Some(OpCode::I32Rotr)
    } else if position == 82 {
        Some(OpCode::I64Clz)
    } else if position == 83 {
        Some(OpCode::I64Ctz)
    } else if position == 84 {
        Some(OpCode::I64Popcnt)
    } else if position == 85 {
        Some(OpCode::I64Add)
    } else if position == 86 {
        Some(OpCode::I64Sub)
    } else if position == 87 {
        Some(OpCode::I64Mul)
    } else if position == 88 {
        Some(OpCode::I64DivS)
    } else if position == 89 {
        Some(OpCode::I64DivU)
    } else if position == 90 {
        Some(OpCode::I64RemS)
    } else if position == 91 {
        Some(OpCode::I64RemU)
    } else if position == 92 {
        Some(OpCode::I64And)
    } else if position == 93 {
        Some(OpCode::I64Or)
    } else if position == 94 {
        Some(OpCode::I64Xor)
    } else if position == 95 {
        Some(OpCode::I64Shl)
    } else if position == 96 {
        Some(OpCode::I64ShrS)
    } else if position == 97 {
        Some(OpCode::I64ShrU)
    } else if position == 98 {
        Some(OpCode::I64Rotl)
    } else if position == 99 {
        Some(OpCode::I64Rotr)
    } else if position == 100 {
        Some(OpCode::I32WrapI64)
    } else if position == 101 {
        Some(OpCode::I64ExtendI32S)
    } else if position == 102 {
        Some(OpCode::I64ExtendI32U)
    } else {
        None
    }
}

/// The opcode of a decoded instruction, or `None` for an operator outside the
/// subset (`call_indirect` among them).
pub open spec fn opcode_of(instr: Instruction) -> Option<OpCode> {
    match instr {
        Instruction::Unreachable => Some(OpCode::Unreachable),
        Instruction::Nop => Some(OpCode::Nop),
        Instruction::Block { .. } => Some(OpCode::Block),
        Instruction::Loop { .. } => Some(OpCode::Loop),
        Instruction::If { .. } => Some(OpCode::If),
        Instruction::Else => Some(OpCode::Else),
        Instruction::End => Some(OpCode::End),
        Instruction::Br { .. } => Some(OpCode::Br),
        Instruction::BrIf { .. } => Some(OpCode::BrIf),
        Instruction::BrTable { .. } => Some(OpCode::BrTable),
        Instruction::Return => Some(OpCode::Return),
        Instruction::Call { .. } => Some(OpCode::Call),
        Instruction::Drop => Some(OpCode::Drop),
        Instruction::Select => Some(OpCode::Select),
        Instruction::LocalGet { .. } => Some(OpCode::LocalGet),
        Instruction::LocalSet { .. } => Some(OpCode::LocalSet),
        Instruction::LocalTee { .. } => Some(OpCode::LocalTee),
        Instruction::GlobalGet { .. } => Some(OpCode::GlobalGet),
        Instruction::GlobalSet { .. } => Some(OpCode::GlobalSet),
        Instruction::I32Const { .. } => Some(OpCode::I32Const),
        Instruction::I64Const { .. } => Some(OpCode::I64Const),
        Instruction::I32Load { .. } => Some(OpCode::I32Load),
        Instruction::I64Load { .. } => Some(OpCode::I64Load),
        Instruction::I32Load8S { .. } => Some(OpCode::I32Load8S),
        Instruction::I32Load8U { .. } => Some(OpCode::I32Load8U),
        Instruction::I32Load16S { .. } => Some(OpCode::I32Load16S),
        Instruction::I32Load16U { .. } => Some(OpCode::I32Load16U),
        Instruction::I64Load8S { .. } => Some(OpCode::I64Load8S),
        Instruction::I64Load8U { .. } => Some(OpCode::I64Load8U),
        Instruction::I64Load16S { .. } => Some(OpCode::I64Load16S),
        Instruction::I64Load16U { .. } => Some(OpCode::I64Load16U),
        Instruction::I64Load32S { .. } => Some(OpCode::I64Load32S),
        Instruction::I64Load32U { .. } => Some(OpCode::I64Load32U),
        Instruction::I32Store { .. } => Some(OpCode::I32Store),
        Instruction::I64Store { .. } => Some(OpCode::I64Store),
        Instruction::I32Store8 { .. } => Some(OpCode::I32Store8),
        Instruction::I32Store16 { .. } => Some(OpCode::I32Store16),
        Instruction::I64Store8 { .. } => Some(OpCode::I64Store8),
        Instruction::I64Store16 { .. } => Some(OpCode::I64Store16),
        Instruction::I64Store32 { .. } => Some(OpCode::I64Store32),
        Instruction::MemorySize => Some(OpCode::MemorySize),
        Instruction::MemoryGrow => Some(OpCode::MemoryGrow),
        Instruction::I32Eqz => Some(OpCode::I32Eqz),
        Instruction::I32Eq => Some(OpCode::I32Eq),
        Instruction::I32Ne => Some(OpCode::I32Ne),
        Instruction::I32LtS => Some(OpCode::I32LtS),
        Instruction::I32LtU => Some(OpCode::I32LtU),
        Instruction::I32GtS => Some(OpCode::I32GtS),
        Instruction::I32GtU => Some(OpCode::I32GtU),
        Instruction::I32LeS => Some(OpCode::I32LeS),
        Instruction::I32LeU => Some(OpCode::I32LeU),
        Instruction::I32GeS => Some(OpCode::I32GeS),
        Instruction::I32GeU => Some(OpCode::I32GeU),
        Instruction::I64Eqz => Some(OpCode::I64Eqz),
        Instruction::I64Eq => Some(OpCode::I64Eq),
        Instruction::I64Ne => Some(OpCode::I64Ne),
        Instruction::I64LtS => Some(OpCode::I64LtS),
        Instruction::I64LtU => Some(OpCode::I64LtU),
        Instruction::I64GtS => Some(OpCode::I64GtS),
        Instruction::I64GtU => Some(OpCode::I64GtU),
        Instruction::I64LeS => Some(OpCode::I64LeS),
        Instruction::I64LeU => Some(OpCode::I64LeU),
        Instruction::I64GeS => Some(OpCode::I64GeS),
        Instruction::I64GeU => Some(OpCode::I64GeU),
        Instruction::I32Clz => Some(OpCode::I32Clz),
        Instruction::I32Ctz => Some(OpCode::I32Ctz),
        Instruction::I32Popcnt => Some(OpCode::I32Popcnt),
        Instruction::I32Add => Some(OpCode::I32Add),
        Instruction::I32Sub => Some(OpCode::I32Sub),
        Instruction::I32Mul => Some(OpCode::I32Mul),
        Instruction::I32DivS => Some(OpCode::I32DivS),
        Instruction::I32DivU => Some(OpCode::I32DivU),
        Instruction::I32RemS => Some(OpCode::I32RemS),
        Instruction::I32RemU => Some(OpCode::I32RemU),
        Instruction::I32And => Some(OpCode::I32And),
        Instruction::I32Or => Some(OpCode::I32Or),
        Instruction::I32Xor => Some(OpCode::I32Xor),
        Instruction::I32Shl => Some(OpCode::I32Shl),
        Instruction::I32ShrS => Some(OpCode::I32ShrS),
        Instruction::I32ShrU => Some(OpCode::I32ShrU),
        Instruction::I32Rotl => Some(OpCode::I32Rotl),
        Instruction::I32Rotr => Some(OpCode::I32Rotr),
        Instruction::I64Clz => Some(OpCode::I64Clz),
        Instruction::I64Ctz => Some(OpCode::I64Ctz),
        Instruction::I64Popcnt => Some(OpCode::I64Popcnt),
        Instruction::I64Add => Some(OpCode::I64Add),
        Instruction::I64Sub => Some(OpCode::I64Sub),
        Instruction::I64Mul => Some(OpCode::I64Mul),
        Instruction::I64DivS => Some(OpCode::I64DivS),
        Instruction::I64DivU => Some(OpCode::I64DivU),
        Instruction::I64RemS => Some(OpCode::I64RemS),
        Instruction::I64RemU => Some(OpCode::I64RemU),
        Instruction::I64And => Some(OpCode::I64And),
        Instruction::I64Or => Some(OpCode::I64Or),
        Instruction::I64Xor => Some(OpCode::I64Xor),
        Instruction::I64Shl => Some(OpCode::I64Shl),
        Instruction::I64ShrS => Some(OpCode::I64ShrS),
        Instruction::I64ShrU => Some(OpCode::I64ShrU),
        Instruction::I64Rotl => Some(OpCode::I64Rotl),
        Instruction::I64Rotr => Some(OpCode::I64Rotr),
        Instruction::I32WrapI64 => Some(OpCode::I32WrapI64),
        Instruction::I64ExtendI32S => Some(OpCode::I64ExtendI32S),
        Instruction::I64ExtendI32U => Some(OpCode::I64ExtendI32U),
        _ => None,
    }
}

/// Every opcode's position lies below the size of the subset, and the position
/// determines the opcode: no two opcodes share a position.
pub proof fn lemma_opcode_position_injective(op: OpCode)
    ensures
        opcode_position(op) < 103,
        opcode_at(opcode_position(op)) == Some(op),
{
}

/// Two opcodes at the same position are the same opcode.
pub proof fn lemma_opcode_positions_distinct(a: OpCode, b: OpCode)
    requires
        opcode_position(a) == opcode_position(b),
    ensures
        a == b,
{
    lemma_opcode_position_injective(a);
    lemma_opcode_position_injective(b);
}

impl OpCode {
    /// The opcode of a decoded instruction.
    ///
    /// Fails with [`DecodeError::UnsupportedOperator`] for an operator outside
    /// the integer subset.
    pub fn from_instruction(instr: &Instruction) -> (r: Result<OpCode, DecodeError>)
        ensures
            r is Ok <==> opcode_of(*instr) is Some,
            r matches Ok(op) ==> opcode_of(*instr) == Some(op),
            r matches Err(e) ==> e is UnsupportedOperator,
    {
        match instr {
            Instruction::Unreachable => Ok(OpCode::Unreachable),
            Instruction::Nop => Ok(OpCode::Nop),
            Instruction::Block { .. } => Ok(OpCode::Block),
            Instruction::Loop { .. } => Ok(OpCode::Loop),
            Instruction::If { .. } => Ok(OpCode::If),
            Instruction::Else => Ok(OpCode::Else),
            Instruction::End => Ok(OpCode::End),
            Instruction::Br { .. } => Ok(OpCode::Br),
            Instruction::BrIf { .. } => Ok(OpCode::BrIf),
            Instruction::BrTable { .. } => Ok(OpCode::BrTable),
            Instruction::Return => Ok(OpCode::Return),
            Instruction::Call { .. } => Ok(OpCode::Call),
            Instruction::Drop => Ok(OpCode::Drop),
            Instruction::Select => Ok(OpCode::Select),
            Instruction::LocalGet { .. } => Ok(OpCode::LocalGet),
            Instruction::LocalSet { .. } => Ok(OpCode::LocalSet),
            Instruction::LocalTee { .. } => Ok(OpCode::LocalTee),
            Instruction::GlobalGet { .. } => Ok(OpCode::GlobalGet),
            Instruction::GlobalSet { .. } => Ok(OpCode::GlobalSet),
            Instruction::I32Const { .. } => Ok(OpCode::I32Const),
            Instruction::I64Const { .. } => Ok(OpCode::I64Const),
            Instruction::I32Load { .. } => Ok(OpCode::I32Load),
            Instruction::I64Load { .. } => Ok(OpCode::I64Load),
            Instruction::I32Load8S { .. } => Ok(OpCode::I32Load8S),
            Instruction::I32Load8U { .. } => Ok(OpCode::I32Load8U),
            Instruction::I32Load16S { .. } => Ok(OpCode::I32Load16S),
            Instruction::I32Load16U { .. } => Ok(OpCode::I32Load16U),
            Instruction::I64Load8S { .. } => Ok(OpCode::I64Load8S),
            Instruction::I64Load8U { .. } => Ok(OpCode::I64Load8U),
            Instruction::I64Load16S { .. } => Ok(OpCode::I64Load16S),
            Instruction::I64Load16U { .. } => Ok(OpCode::I64Load16U),
            Instruction::I64Load32S { .. } => Ok(OpCode::I64Load32S),
            Instruction::I64Load32U { .. } => Ok(OpCode::I64Load32U),
            Instruction::I32Store { .. } => Ok(OpCode::I32Store),
            Instruction::I64Store { .. } => Ok(OpCode::I64Store),
            Instruction::I32Store8 { .. } => Ok(OpCode::I32Store8),
            Instruction::I32Store16 { .. } => Ok(OpCode::I32Store16),
            Instruction::I64Store8 { .. } => Ok(OpCode::I64Store8),
            Instruction::I64Store16 { .. } => Ok(OpCode::I64Store16),
            Instruction::I64Store32 { .. } => Ok(OpCode::I64Store32),
            Instruction::MemorySize => Ok(OpCode::MemorySize),
            Instruction::MemoryGrow => Ok(OpCode::MemoryGrow),
            Instruction::I32Eqz => Ok(OpCode::I32Eqz),
            Instruction::I32Eq => Ok(OpCode::I32Eq),
            Instruction::I32Ne => Ok(OpCode::I32Ne),
            Instruction::I32LtS => Ok(OpCode::I32LtS),
            Instruction::I32LtU => Ok(OpCode::I32LtU),
            Instruction::I32GtS => Ok(OpCode::I32GtS),
            Instruction::I32GtU => Ok(OpCode::I32GtU),
            Instruction::I32LeS => Ok(OpCode::I32LeS),
            Instruction::I32LeU => Ok(OpCode::I32LeU),
            Instruction::I32GeS => Ok(OpCode::I32GeS),
            Instruction::I32GeU => Ok(OpCode::I32GeU),
            Instruction::I64Eqz => Ok(OpCode::I64Eqz),
            Instruction::I64Eq => Ok(OpCode::I64Eq),
            Instruction::I64Ne => Ok(OpCode::I64Ne),
            Instruction::I64LtS => Ok(OpCode::I64LtS),
            Instruction::I64LtU => Ok(OpCode::I64LtU),
            Instruction::I64GtS => Ok(OpCode::I64GtS),
            Instruction::I64GtU => Ok(OpCode::I64GtU),
            Instruction::I64LeS => Ok(OpCode::I64LeS),
            Instruction::I64LeU => Ok(OpCode::I64LeU),
            Instruction::I64GeS => Ok(OpCode::I64GeS),
            Instruction::I64GeU => Ok(OpCode::I64GeU),
            Instruction::I32Clz => Ok(OpCode::I32Clz),
            Instruction::I32Ctz => Ok(OpCode::I32Ctz),
            Instruction::I32Popcnt => Ok(OpCode::I32Popcnt),
            Instruction::I32Add => Ok(OpCode::I32Add),
            Instruction::I32Sub => Ok(OpCode::I32Sub),
            Instruction::I32Mul => Ok(OpCode::I32Mul),
            Instruction::I32DivS => Ok(OpCode::I32DivS),
            Instruction::I32DivU => Ok(OpCode::I32DivU),
            Instruction::I32RemS => Ok(OpCode::I32RemS),
            Instruction::I32RemU => Ok(OpCode::I32RemU),
            Instruction::I32And => Ok(OpCode::I32And),
            Instruction::I32Or => Ok(OpCode::I32Or),
            Instruction::I32Xor => Ok(OpCode::I32Xor),
            Instruction::I32Shl => Ok(OpCode::I32Shl),
            Instruction::I32ShrS => Ok(OpCode::I32ShrS),
            Instruction::I32ShrU => Ok(OpCode::I32ShrU),
            Instruction::I32Rotl => Ok(OpCode::I32Rotl),
            Instruction::I32Rotr => Ok(OpCode::I32Rotr),
            Instruction::I64Clz => Ok(OpCode::I64Clz),
            Instruction::I64Ctz => Ok(OpCode::I64Ctz),
            Instruction::I64Popcnt => Ok(OpCode::I64Popcnt),
            Instruction::I64Add => Ok(OpCode::I64Add),
            Instruction::I64Sub => Ok(OpCode::I64Sub),
            Instruction::I64Mul => Ok(OpCode::I64Mul),
            Instruction::I64DivS => Ok(OpCode::I64DivS),
            Instruction::I64DivU => Ok(OpCode::I64DivU),
            Instruction::I64RemS => Ok(OpCode::I64RemS),
            Instruction::I64RemU => Ok(OpCode::I64RemU),
            Instruction::I64And => Ok(OpCode::I64And),
            Instruction::I64Or => Ok(OpCode::I64Or),
            Instruction::I64Xor => Ok(OpCode::I64Xor),
            Instruction::I64Shl => Ok(OpCode::I64Shl),
            Instruction::I64ShrS => Ok(OpCode::I64ShrS),
            Instruction::I64ShrU => Ok(OpCode::I64ShrU),
            Instruction::I64Rotl => Ok(OpCode::I64Rotl),
            Instruction::I64Rotr => Ok(OpCode::I64Rotr),
            Instruction::I32WrapI64 => Ok(OpCode::I32WrapI64),
            Instruction::I64ExtendI32S => Ok(OpCode::I64ExtendI32S),
            Instruction::I64ExtendI32U => Ok(OpCode::I64ExtendI32U),
            Instruction::CallIndirect { .. } => Err(DecodeError::UnsupportedOperator {
                offset: 0,
                operator: "call_indirect".to_owned(),
            }),
            Instruction::Other { name } => Err(DecodeError::UnsupportedOperator {
                offset: 0,
                operator: name.clone(),
            }),
        }
    }

    /// The access shape of a load: its width in bytes, whether it sign-extends,
    /// and whether it produces an `i64`. Every other opcode has shape
    /// `(0, false, false)`.
    pub fn load_shape(self) -> (r: (usize, bool, bool))
        ensures
            r == load_shape_spec(self),
    {
        match self {
        OpCode::I32Load => (4, false, false),
            OpCode::I64Load => (8, false, true),
            OpCode::I32Load8S => (1, true, false),
            OpCode::I32Load8U => (1, false, false),
            OpCode::I32Load16S => (2, true, false),
            OpCode::I32Load16U => (2, false, false),
            OpCode::I64Load8S => (1, true, true),
            OpCode::I64Load8U => (1, false, true),
            OpCode::I64Load16S => (2, true, true),
            OpCode::I64Load16U => (2, false, true),
            OpCode::I64Load32S => (4, true, true),
            OpCode::I64Load32U => (4, false, true),
            _ => (0, false, false),
        }
    }
}

/// The access shape of a load opcode: `(bytes, sign-extends, produces i64)`.
pub open spec fn load_shape_spec(op: OpCode) -> (usize, bool, bool) {
    match op {
        OpCode::I32Load => (4, false, false),
        OpCode::I64Load => (8, false, true),
        OpCode::I32Load8S => (1, true, false),
        OpCode::I32Load8U => (1, false, false),
        OpCode::I32Load16S => (2, true, false),
        OpCode::I32Load16U => (2, false, false),
        OpCode::I64Load8S => (1, true, true),
        OpCode::I64Load8U => (1, false, true),
        OpCode::I64Load16S => (2, true, true),
        OpCode::I64Load16U => (2, false, true),
        OpCode::I64Load32S => (4, true, true),
        OpCode::I64Load32U => (4, false, true),
        _ => (0, false, false),
    }
}

} // verus!
