//! The instruction set of the minimal WebAssembly virtual machine: the opcodes
//! it recognises by their binary encoding, and its decoded instructions.

use vstd::prelude::*;
use crate::binary::Block;

verus! {

/// WebAssembly instruction opcodes.
#[derive(Debug, Clone, Copy, PartialEq, Eq, Structural)]
pub enum Opcode {
    /// Conditional branch (`0x04`).
    If,
    /// End of block, loop, or function (`0x0B`).
    End,
    /// Return from function (`0x0F`).
    Return,
    /// Read a local variable (`0x20`).
    LocalGet,
    /// Write a local variable (`0x21`).
    LocalSet,
    /// Store 32-bit integer to memory (`0x36`).
    I32Store,
    /// Push 32-bit integer constant (`0x41`).
    I32Const,
    /// Signed less-than (<) comparison for 32-bit integers (`0x48`).
    I32LtS,
    /// Add two 32-bit integers (`0x6A`).
    I32Add,
    /// Subtract two 32-bit integers (`0x6B`).
    I32Sub,
    /// Call a function by index (`0x10`).
    Call,
}

/// The binary encoding of an opcode.
pub open spec fn opcode_byte(op: Opcode) -> u8 {
    match op {
        Opcode::If => 0x04,
        Opcode::End => 0x0B,
        Opcode::Return => 0x0F,
        Opcode::LocalGet => 0x20,
        Opcode::LocalSet => 0x21,
        Opcode::I32Store => 0x36,
        Opcode::I32Const => 0x41,
        Opcode::I32LtS => 0x48,
        Opcode::I32Add => 0x6A,
        Opcode::I32Sub => 0x6B,
        Opcode::Call => 0x10,
    }
}

impl Opcode {
    /// The opcode's binary encoding.
    pub fn to_byte(self) -> (r: u8)
        ensures
            r == opcode_byte(self),
    {
        match self {
            Opcode::If => 0x04,
            Opcode::End => 0x0B,
            Opcode::Return => 0x0F,
            Opcode::LocalGet => 0x20,
            Opcode::LocalSet => 0x21,
            Opcode::I32Store => 0x36,
            Opcode::I32Const => 0x41,
            Opcode::I32LtS => 0x48,
            Opcode::I32Add => 0x6A,
            Opcode::I32Sub => 0x6B,
            Opcode::Call => 0x10,
        }
    }

    /// The opcode a byte encodes, if any.
    pub fn from_byte(byte: u8) -> (r: Option<Opcode>)
        ensures
            r matches Some(op) ==> opcode_byte(op) == byte,
            r is None ==> forall|op: Opcode| opcode_byte(op) != byte,
    {
        if byte == 0x04 {
            Some(Opcode::If)
        } else if byte == 0x0B {
            Some(Opcode::End)
        } else if byte == 0x0F {
            Some(Opcode::Return)
        } else if byte == 0x20 {
            Some(Opcode::LocalGet)
        } else if byte == 0x21 {
            Some(Opcode::LocalSet)
        } else if byte == 0x36 {
            Some(Opcode::I32Store)
        } else if byte == 0x41 {
            Some(Opcode::I32Const)
        } else if byte == 0x48 {
            Some(Opcode::I32LtS)
        } else if byte == 0x6A {
            Some(Opcode::I32Add)
        } else if byte == 0x6B {
            Some(Opcode::I32Sub)
        } else if byte == 0x10 {
            Some(Opcode::Call)
        } else {
            None
        }
    }
}

/// Decoding an opcode's encoding gives the opcode back.
pub proof fn law_opcode_byte_round_trip(op: Opcode)
    ensures
        forall|other: Opcode| opcode_byte(other) == opcode_byte(op) ==> other == op,
{
}

/// A decoded instruction of the minimal machine with its operands.
#[derive(Debug, Clone, PartialEq, Eq)]
pub enum Instruction {
    /// Conditional branch with block type.
    If(Block),
    /// End of block, loop, or function.
    End,
    /// Return from the current function.
    Return,
    /// Read local variable at the given index.
    LocalGet(u32),
    /// Write local variable at the given index.
    LocalSet(u32),
    /// Store 32-bit integer to memory with alignment and offset.
    I32Store {
        /// Memory alignment hint (log2 of byte alignment).
        align: u32,
        /// Byte offset added to the address.
        offset: u32,
    },
    /// Push a 32-bit integer constant onto the stack.
    I32Const(i32),
    /// Signed less-than (<) comparison for 32-bit integers.
    I32Lts,
    /// Add two 32-bit integers.
    I32Add,
    /// Subtract two 32-bit integers.
    I32Sub,
    /// Call a function by its index.
    Call(u32),
}

} // verus!
