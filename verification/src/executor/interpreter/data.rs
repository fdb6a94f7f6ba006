//! The data instructions: those that only move and compute values on the
//! operand stack, the locals, the globals and linear memory, and continue at
//! the next program point. Their effect is a function of the state they run
//! in.

use vstd::prelude::*;
use crate::decoder::WASM32_PAGE_SIZE;
use crate::decoder::instruction::Instruction;
use crate::decoder::opcode::{OpCode, load_shape_spec, opcode_of};
use crate::decoder::types::{Word, word_bits};
use crate::executor::error::{ExecuteError, Trap};
use crate::executor::record::{MemAccess, Transition};
use crate::executor::runtime::memory::{in_bounds, le_bytes, le_value, overwrite, resized};
use crate::executor::memory::resolves;
use crate::executor::runtime::registers::register_value;
use crate::executor::runtime::stack::OperandStack;
use crate::executor::record::RegAccess;
use crate::lift::analysis::{value_effect, value_reads, value_writes};
use crate::lift::program::Register;
use crate::executor::value::{Arithmetic, Compare, Unary, arithmetic_defined, spec_arithmetic, spec_compare, spec_unary};
use super::{Interpreter, binop, loaded_word, relop, stored_raw, unop};
use super::signal::{Signal, StepOutcome};

verus! {

/// What a data instruction does to the state it runs in.
pub enum DataStep {
    /// It continues at the next program point with this operand stack, these
    /// locals, globals and memory bytes, having made these memory accesses.
    Next { stack: Seq<Word>, locals: Seq<Word>, globals: Seq<Word>, mem: Seq<u8>, accesses: Seq<MemAccess> },
    /// It traps.
    Trap(Trap),
    /// The state does not fit the instruction: too few operands, an index out
    /// of range, or operands of disagreeing widths. A validated module never
    /// gets here.
    Malformed,
}

/// A step that only replaces the operand stack.
pub open spec fn with_stack(stack: Seq<Word>, l: Seq<Word>, g: Seq<Word>, m: Seq<u8>) -> DataStep {
    DataStep::Next { stack, locals: l, globals: g, mem: m, accesses: Seq::empty() }
}

/// A two-operand arithmetic instruction: `lhs op rhs`, with `rhs` on top.
pub open spec fn binary_step(kind: Arithmetic, s: Seq<Word>, l: Seq<Word>, g: Seq<Word>, m: Seq<u8>) -> DataStep {
    if s.len() >= 2 && arithmetic_defined(kind, s[s.len() - 2], s.last()) {
        match spec_arithmetic(kind, s[s.len() - 2], s.last()) {
            Ok(w) => with_stack(s.subrange(0, s.len() - 2).push(w), l, g, m),
            Err(t) => DataStep::Trap(t),
        }
    } else {
        DataStep::Malformed
    }
}

/// A comparison: `lhs op rhs` as an `i32` boolean, with `rhs` on top.
pub open spec fn compare_step(kind: Compare, s: Seq<Word>, l: Seq<Word>, g: Seq<Word>, m: Seq<u8>) -> DataStep {
    if s.len() >= 2 {
        with_stack(s.subrange(0, s.len() - 2).push(spec_compare(kind, s[s.len() - 2], s.last())), l, g, m)
    } else {
        DataStep::Malformed
    }
}

/// A one-operand instruction on the top of the stack.
pub open spec fn unary_step(kind: Unary, s: Seq<Word>, l: Seq<Word>, g: Seq<Word>, m: Seq<u8>) -> DataStep {
    if s.len() >= 1 {
        with_stack(s.drop_last().push(spec_unary(kind, s.last())), l, g, m)
    } else {
        DataStep::Malformed
    }
}

/// A load of the shape `op` names at `offset` past the base on top of the
/// stack.
pub open spec fn load_step(op: OpCode, offset: u64, s: Seq<Word>, l: Seq<Word>, g: Seq<Word>, m: Seq<u8>) -> DataStep {
    let (bytes, signed, result64) = load_shape_spec(op);
    if s.len() == 0 {
        DataStep::Malformed
    } else {
        let base = word_bits(s.last()) as u32;
        if !in_bounds(base, offset, bytes as nat, m.len()) {
            DataStep::Trap(Trap::MemoryOutOfBounds)
        } else {
            let address = base + offset;
            let raw = le_value(m.subrange(address, address + bytes)) as u64;
            DataStep::Next {
                stack: s.drop_last().push(loaded_word(raw, bytes as nat, signed, result64)),
                locals: l,
                globals: g,
                mem: m,
                accesses: seq![MemAccess { address: address as u64, width: bytes as u8, value: raw, store: false }],
            }
        }
    }
}

/// A store of the low `bytes` bytes of the top of the stack, at `offset` past
/// the base below it.
pub open spec fn store_step(bytes: nat, offset: u64, s: Seq<Word>, l: Seq<Word>, g: Seq<Word>, m: Seq<u8>) -> DataStep {
    if s.len() < 2 {
        DataStep::Malformed
    } else {
        let raw = stored_raw(word_bits(s.last()), bytes);
        let base = word_bits(s[s.len() - 2]) as u32;
        if !in_bounds(base, offset, bytes, m.len()) {
            DataStep::Trap(Trap::MemoryOutOfBounds)
        } else {
            let address = base + offset;
            DataStep::Next {
                stack: s.subrange(0, s.len() - 2),
                locals: l,
                globals: g,
                mem: overwrite(m, address, le_bytes(raw as nat, bytes)),
                accesses: seq![MemAccess { address: address as u64, width: bytes as u8, value: raw, store: true }],
            }
        }
    }
}

/// `memory.grow` by the page delta on top of the stack: the previous page
/// count and the grown memory, or `u32::MAX` and the memory unchanged when
/// the grow would pass a limit.
pub open spec fn grow_step(s: Seq<Word>, l: Seq<Word>, g: Seq<Word>, m: Seq<u8>, max_pages: Option<u64>) -> DataStep {
    if s.len() == 0 {
        DataStep::Malformed
    } else {
        let delta = word_bits(s.last()) as u32;
        let old_pages = m.len() / (WASM32_PAGE_SIZE as nat);
        let n = old_pages + delta;
        if n <= WASM32_PAGE_SIZE && (max_pages matches Some(mx) ==> n <= mx) && n * WASM32_PAGE_SIZE <= usize::MAX {
            with_stack(s.drop_last().push(Word::I32(old_pages as u32)), l, g, resized(m, (n * WASM32_PAGE_SIZE) as nat))
        } else {
            with_stack(s.drop_last().push(Word::I32(u32::MAX)), l, g, m)
        }
    }
}

/// `word` sign-extended from 32 to 64 bits.
pub open spec fn extend_signed(b: u32) -> u64 {
    if b >= 0x8000_0000 {
        (b + 0xFFFF_FFFF_0000_0000) as u64
    } else {
        b as u64
    }
}

/// The effect of a data instruction on the operand stack `s`, the locals `l`,
/// the globals `g` and the memory bytes `m` under the page limit `max_pages`;
/// `None` for an instruction that is not a data instruction.
pub open spec fn data_step(
    instr: Instruction,
    s: Seq<Word>,
    l: Seq<Word>,
    g: Seq<Word>,
    m: Seq<u8>,
    max_pages: Option<u64>,
) -> Option<DataStep> {
    match instr {
        Instruction::Nop => Some(with_stack(s, l, g, m)),
        Instruction::Drop => Some(
            if s.len() >= 1 {
                with_stack(s.drop_last(), l, g, m)
            } else {
                DataStep::Malformed
            },
        ),
        Instruction::Select => Some(
            if s.len() >= 3 {
                with_stack(
                    s.subrange(0, s.len() - 3).push(
                        if word_bits(s.last()) != 0 {
                            s[s.len() - 3]
                        } else {
                            s[s.len() - 2]
                        },
                    ),
                    l,
                    g,
                    m,
                )
            } else {
                DataStep::Malformed
            },
        ),
        Instruction::LocalGet { local_index } => Some(
            if local_index < l.len() {
                with_stack(s.push(l[local_index as int]), l, g, m)
            } else {
                DataStep::Malformed
            },
        ),
        Instruction::LocalSet { local_index } => Some(
            if s.len() >= 1 && local_index < l.len() {
                DataStep::Next {
                    stack: s.drop_last(),
                    locals: l.update(local_index as int, s.last()),
                    globals: g,
                    mem: m,
                    accesses: Seq::empty(),
                }
            } else {
                DataStep::Malformed
            },
        ),
        Instruction::LocalTee { local_index } => Some(
            if s.len() >= 1 && local_index < l.len() {
                DataStep::Next {
                    stack: s,
                    locals: l.update(local_index as int, s.last()),
                    globals: g,
                    mem: m,
                    accesses: Seq::empty(),
                }
            } else {
                DataStep::Malformed
            },
        ),
        Instruction::GlobalGet { global_index } => Some(
            if global_index < g.len() {
                with_stack(s.push(g[global_index as int]), l, g, m)
            } else {
                DataStep::Malformed
            },
        ),
        Instruction::GlobalSet { global_index } => Some(
            if s.len() >= 1 && global_index < g.len() {
                DataStep::Next {
                    stack: s.drop_last(),
                    locals: l,
                    globals: g.update(global_index as int, s.last()),
                    mem: m,
                    accesses: Seq::empty(),
                }
            } else {
                DataStep::Malformed
            },
        ),
        Instruction::I32Const { value } => Some(with_stack(s.push(Word::I32(value as u32)), l, g, m)),
        Instruction::I64Const { value } => Some(with_stack(s.push(Word::I64(value as u64)), l, g, m)),
        Instruction::I32Load { offset } => Some(load_step(OpCode::I32Load, offset, s, l, g, m)),
        Instruction::I64Load { offset } => Some(load_step(OpCode::I64Load, offset, s, l, g, m)),
        Instruction::I32Load8S { offset } => Some(load_step(OpCode::I32Load8S, offset, s, l, g, m)),
        Instruction::I32Load8U { offset } => Some(load_step(OpCode::I32Load8U, offset, s, l, g, m)),
        Instruction::I32Load16S { offset } => Some(load_step(OpCode::I32Load16S, offset, s, l, g, m)),
        Instruction::I32Load16U { offset } => Some(load_step(OpCode::I32Load16U, offset, s, l, g, m)),
        Instruction::I64Load8S { offset } => Some(load_step(OpCode::I64Load8S, offset, s, l, g, m)),
        Instruction::I64Load8U { offset } => Some(load_step(OpCode::I64Load8U, offset, s, l, g, m)),
        Instruction::I64Load16S { offset } => Some(load_step(OpCode::I64Load16S, offset, s, l, g, m)),
        Instruction::I64Load16U { offset } => Some(load_step(OpCode::I64Load16U, offset, s, l, g, m)),
        Instruction::I64Load32S { offset } => Some(load_step(OpCode::I64Load32S, offset, s, l, g, m)),
        Instruction::I64Load32U { offset } => Some(load_step(OpCode::I64Load32U, offset, s, l, g, m)),
        Instruction::I32Store { offset } => Some(store_step(4, offset, s, l, g, m)),
        Instruction::I64Store { offset } => Some(store_step(8, offset, s, l, g, m)),
        Instruction::I32Store8 { offset } => Some(store_step(1, offset, s, l, g, m)),
        Instruction::I32Store16 { offset } => Some(store_step(2, offset, s, l, g, m)),
        Instruction::I64Store8 { offset } => Some(store_step(1, offset, s, l, g, m)),
        Instruction::I64Store16 { offset } => Some(store_step(2, offset, s, l, g, m)),
        Instruction::I64Store32 { offset } => Some(store_step(4, offset, s, l, g, m)),
        Instruction::MemorySize => Some(
            with_stack(s.push(Word::I32((m.len() / (WASM32_PAGE_SIZE as nat)) as u32)), l, g, m),
        ),
        Instruction::MemoryGrow => Some(grow_step(s, l, g, m, max_pages)),
        Instruction::I32Eqz | Instruction::I64Eqz => Some(unary_step(Unary::Eqz, s, l, g, m)),
        Instruction::I32Clz | Instruction::I64Clz => Some(unary_step(Unary::Clz, s, l, g, m)),
        Instruction::I32Ctz | Instruction::I64Ctz => Some(unary_step(Unary::Ctz, s, l, g, m)),
        Instruction::I32Popcnt | Instruction::I64Popcnt => Some(unary_step(Unary::Popcnt, s, l, g, m)),
        Instruction::I32Add | Instruction::I64Add => Some(binary_step(Arithmetic::Add, s, l, g, m)),
        Instruction::I32Sub | Instruction::I64Sub => Some(binary_step(Arithmetic::Sub, s, l, g, m)),
        Instruction::I32Mul | Instruction::I64Mul => Some(binary_step(Arithmetic::Mul, s, l, g, m)),
        Instruction::I32DivS | Instruction::I64DivS => Some(binary_step(Arithmetic::DivS, s, l, g, m)),
        Instruction::I32DivU | Instruction::I64DivU => Some(binary_step(Arithmetic::DivU, s, l, g, m)),
        Instruction::I32RemS | Instruction::I64RemS => Some(binary_step(Arithmetic::RemS, s, l, g, m)),
        Instruction::I32RemU | Instruction::I64RemU => Some(binary_step(Arithmetic::RemU, s, l, g, m)),
        Instruction::I32And | Instruction::I64And => Some(binary_step(Arithmetic::And, s, l, g, m)),
        Instruction::I32Or | Instruction::I64Or => Some(binary_step(Arithmetic::Or, s, l, g, m)),
        Instruction::I32Xor | Instruction::I64Xor => Some(binary_step(Arithmetic::Xor, s, l, g, m)),
        Instruction::I32Shl | Instruction::I64Shl => Some(binary_step(Arithmetic::Shl, s, l, g, m)),
        Instruction::I32ShrS | Instruction::I64ShrS => Some(binary_step(Arithmetic::ShrS, s, l, g, m)),
        Instruction::I32ShrU | Instruction::I64ShrU => Some(binary_step(Arithmetic::ShrU, s, l, g, m)),
        Instruction::I32Rotl | Instruction::I64Rotl => Some(binary_step(Arithmetic::Rotl, s, l, g, m)),
        Instruction::I32Rotr | Instruction::I64Rotr => Some(binary_step(Arithmetic::Rotr, s, l, g, m)),
        Instruction::I32Eq | Instruction::I64Eq => Some(compare_step(Compare::Eq, s, l, g, m)),
        Instruction::I32Ne | Instruction::I64Ne => Some(compare_step(Compare::Ne, s, l, g, m)),
        Instruction::I32LtS | Instruction::I64LtS => Some(compare_step(Compare::LtS, s, l, g, m)),
        Instruction::I32LtU | Instruction::I64LtU => Some(compare_step(Compare::LtU, s, l, g, m)),
        Instruction::I32GtS | Instruction::I64GtS => Some(compare_step(Compare::GtS, s, l, g, m)),
        Instruction::I32GtU | Instruction::I64GtU => Some(compare_step(Compare::GtU, s, l, g, m)),
        Instruction::I32LeS | Instruction::I64LeS => Some(compare_step(Compare::LeS, s, l, g, m)),
        Instruction::I32LeU | Instruction::I64LeU => Some(compare_step(Compare::LeU, s, l, g, m)),
        Instruction::I32GeS | Instruction::I64GeS => Some(compare_step(Compare::GeS, s, l, g, m)),
        Instruction::I32GeU | Instruction::I64GeU => Some(compare_step(Compare::GeU, s, l, g, m)),
        Instruction::I32WrapI64 => Some(
            if s.len() >= 1 {
                with_stack(s.drop_last().push(Word::I32(word_bits(s.last()) as u32)), l, g, m)
            } else {
                DataStep::Malformed
            },
        ),
        Instruction::I64ExtendI32S => Some(
            if s.len() >= 1 {
                with_stack(s.drop_last().push(Word::I64(extend_signed(word_bits(s.last()) as u32))), l, g, m)
            } else {
                DataStep::Malformed
            },
        ),
        Instruction::I64ExtendI32U => Some(
            if s.len() >= 1 {
                with_stack(s.drop_last().push(Word::I64((word_bits(s.last()) as u32) as u64)), l, g, m)
            } else {
                DataStep::Malformed
            },
        ),
        _ => None,
    }
}

/// Whether running a data instruction at `pc` gave `r` and left the operand
/// stack `s`, locals `l`, globals `g` and memory bytes `m`, as `step` says.
pub open spec fn data_outcome(
    step: DataStep,
    pc: int,
    r: Result<StepOutcome, ExecuteError>,
    s: Seq<Word>,
    l: Seq<Word>,
    g: Seq<Word>,
    m: Seq<u8>,
) -> bool {
    match step {
        DataStep::Next { stack, locals, globals, mem, accesses } => {
            &&& r matches Ok(o)
            &&& o.control == Signal::Advance((pc + 1) as usize)
            &&& o.transition == Transition::Next((pc + 1) as u32)
            &&& o.mem@ =~= accesses
            &&& s == stack
            &&& l == locals
            &&& g == globals
            &&& m == mem
        },
        DataStep::Trap(t) => r == Err::<StepOutcome, ExecuteError>(ExecuteError::Trap(t)),
        DataStep::Malformed => r is Err,
    }
}

/// Whether `instr` is an instruction that moves a value: `nop`, `drop`,
/// `select`, a local or global access, a constant, or a width conversion.
pub open spec fn is_variable(instr: Instruction) -> bool {
    match instr {
        Instruction::Nop
        | Instruction::Drop
        | Instruction::Select
        | Instruction::LocalGet { .. }
        | Instruction::LocalSet { .. }
        | Instruction::LocalTee { .. }
        | Instruction::GlobalGet { .. }
        | Instruction::GlobalSet { .. }
        | Instruction::I32Const { .. }
        | Instruction::I64Const { .. }
        | Instruction::I32WrapI64
        | Instruction::I64ExtendI32S
        | Instruction::I64ExtendI32U => true,
        _ => false,
    }
}

/// Whether `instr` is a load, a store, `memory.size` or `memory.grow`.
pub open spec fn is_memory(instr: Instruction) -> bool {
    match instr {
        Instruction::I32Load { .. }
        | Instruction::I64Load { .. }
        | Instruction::I32Load8S { .. }
        | Instruction::I32Load8U { .. }
        | Instruction::I32Load16S { .. }
        | Instruction::I32Load16U { .. }
        | Instruction::I64Load8S { .. }
        | Instruction::I64Load8U { .. }
        | Instruction::I64Load16S { .. }
        | Instruction::I64Load16U { .. }
        | Instruction::I64Load32S { .. }
        | Instruction::I64Load32U { .. }
        | Instruction::I32Store { .. }
        | Instruction::I64Store { .. }
        | Instruction::I32Store8 { .. }
        | Instruction::I32Store16 { .. }
        | Instruction::I64Store8 { .. }
        | Instruction::I64Store16 { .. }
        | Instruction::I64Store32 { .. }
        | Instruction::MemorySize
        | Instruction::MemoryGrow => true,
        _ => false,
    }
}

/// Whether `instr` is a test or comparison: `eqz`, a bit count, or a relation.
pub open spec fn is_test(instr: Instruction) -> bool {
    match instr {
        Instruction::I32Eqz
        | Instruction::I64Eqz
        | Instruction::I32Clz
        | Instruction::I32Ctz
        | Instruction::I32Popcnt
        | Instruction::I64Clz
        | Instruction::I64Ctz
        | Instruction::I64Popcnt
        | Instruction::I32Eq
        | Instruction::I32Ne
        | Instruction::I32LtS
        | Instruction::I32LtU
        | Instruction::I32GtS
        | Instruction::I32GtU
        | Instruction::I32LeS
        | Instruction::I32LeU
        | Instruction::I32GeS
        | Instruction::I32GeU
        | Instruction::I64Eq
        | Instruction::I64Ne
        | Instruction::I64LtS
        | Instruction::I64LtU
        | Instruction::I64GtS
        | Instruction::I64GtU
        | Instruction::I64LeS
        | Instruction::I64LeU
        | Instruction::I64GeS
        | Instruction::I64GeU => true,
        _ => false,
    }
}

/// Whether `instr` is a two-operand arithmetic instruction.
pub open spec fn is_arith(instr: Instruction) -> bool {
    match instr {
        Instruction::I32Add
        | Instruction::I32Sub
        | Instruction::I32Mul
        | Instruction::I32DivS
        | Instruction::I32DivU
        | Instruction::I32RemS
        | Instruction::I32RemU
        | Instruction::I32And
        | Instruction::I32Or
        | Instruction::I32Xor
        | Instruction::I32Shl
        | Instruction::I32ShrS
        | Instruction::I32ShrU
        | Instruction::I32Rotl
        | Instruction::I32Rotr
        | Instruction::I64Add
        | Instruction::I64Sub
        | Instruction::I64Mul
        | Instruction::I64DivS
        | Instruction::I64DivU
        | Instruction::I64RemS
        | Instruction::I64RemU
        | Instruction::I64And
        | Instruction::I64Or
        | Instruction::I64Xor
        | Instruction::I64Shl
        | Instruction::I64ShrS
        | Instruction::I64ShrU
        | Instruction::I64Rotl
        | Instruction::I64Rotr => true,
        _ => false,
    }
}

/// The arithmetic a two-operand arithmetic instruction computes.
pub open spec fn arith_kind(instr: Instruction) -> Option<Arithmetic> {
    match instr {
        Instruction::I32Add | Instruction::I64Add => Some(Arithmetic::Add),
        Instruction::I32Sub | Instruction::I64Sub => Some(Arithmetic::Sub),
        Instruction::I32Mul | Instruction::I64Mul => Some(Arithmetic::Mul),
        Instruction::I32DivS | Instruction::I64DivS => Some(Arithmetic::DivS),
        Instruction::I32DivU | Instruction::I64DivU => Some(Arithmetic::DivU),
        Instruction::I32RemS | Instruction::I64RemS => Some(Arithmetic::RemS),
        Instruction::I32RemU | Instruction::I64RemU => Some(Arithmetic::RemU),
        Instruction::I32And | Instruction::I64And => Some(Arithmetic::And),
        Instruction::I32Or | Instruction::I64Or => Some(Arithmetic::Or),
        Instruction::I32Xor | Instruction::I64Xor => Some(Arithmetic::Xor),
        Instruction::I32Shl | Instruction::I64Shl => Some(Arithmetic::Shl),
        Instruction::I32ShrS | Instruction::I64ShrS => Some(Arithmetic::ShrS),
        Instruction::I32ShrU | Instruction::I64ShrU => Some(Arithmetic::ShrU),
        Instruction::I32Rotl | Instruction::I64Rotl => Some(Arithmetic::Rotl),
        Instruction::I32Rotr | Instruction::I64Rotr => Some(Arithmetic::Rotr),
        _ => None,
    }
}

/// The relation a comparison tests.
pub open spec fn compare_kind(instr: Instruction) -> Option<Compare> {
    match instr {
        Instruction::I32Eq | Instruction::I64Eq => Some(Compare::Eq),
        Instruction::I32Ne | Instruction::I64Ne => Some(Compare::Ne),
        Instruction::I32LtS | Instruction::I64LtS => Some(Compare::LtS),
        Instruction::I32LtU | Instruction::I64LtU => Some(Compare::LtU),
        Instruction::I32GtS | Instruction::I64GtS => Some(Compare::GtS),
        Instruction::I32GtU | Instruction::I64GtU => Some(Compare::GtU),
        Instruction::I32LeS | Instruction::I64LeS => Some(Compare::LeS),
        Instruction::I32LeU | Instruction::I64LeU => Some(Compare::LeU),
        Instruction::I32GeS | Instruction::I64GeS => Some(Compare::GeS),
        Instruction::I32GeU | Instruction::I64GeU => Some(Compare::GeU),
        _ => None,
    }
}

/// The operation a one-operand test or bit count computes.
pub open spec fn unary_kind(instr: Instruction) -> Option<Unary> {
    match instr {
        Instruction::I32Eqz | Instruction::I64Eqz => Some(Unary::Eqz),
        Instruction::I32Clz | Instruction::I64Clz => Some(Unary::Clz),
        Instruction::I32Ctz | Instruction::I64Ctz => Some(Unary::Ctz),
        Instruction::I32Popcnt | Instruction::I64Popcnt => Some(Unary::Popcnt),
        _ => None,
    }
}

/// The shape and offset of a load.
pub open spec fn load_of(instr: Instruction) -> Option<(OpCode, u64)> {
    match instr {
        Instruction::I32Load { offset } => Some((OpCode::I32Load, offset)),
        Instruction::I64Load { offset } => Some((OpCode::I64Load, offset)),
        Instruction::I32Load8S { offset } => Some((OpCode::I32Load8S, offset)),
        Instruction::I32Load8U { offset } => Some((OpCode::I32Load8U, offset)),
        Instruction::I32Load16S { offset } => Some((OpCode::I32Load16S, offset)),
        Instruction::I32Load16U { offset } => Some((OpCode::I32Load16U, offset)),
        Instruction::I64Load8S { offset } => Some((OpCode::I64Load8S, offset)),
        Instruction::I64Load8U { offset } => Some((OpCode::I64Load8U, offset)),
        Instruction::I64Load16S { offset } => Some((OpCode::I64Load16S, offset)),
        Instruction::I64Load16U { offset } => Some((OpCode::I64Load16U, offset)),
        Instruction::I64Load32S { offset } => Some((OpCode::I64Load32S, offset)),
        Instruction::I64Load32U { offset } => Some((OpCode::I64Load32U, offset)),
        _ => None,
    }
}

/// The width in bytes and the offset of a store.
pub open spec fn store_of(instr: Instruction) -> Option<(nat, u64)> {
    match instr {
        Instruction::I32Store { offset } => Some((4, offset)),
        Instruction::I64Store { offset } => Some((8, offset)),
        Instruction::I32Store8 { offset } => Some((1, offset)),
        Instruction::I32Store16 { offset } => Some((2, offset)),
        Instruction::I64Store8 { offset } => Some((1, offset)),
        Instruction::I64Store16 { offset } => Some((2, offset)),
        Instruction::I64Store32 { offset } => Some((4, offset)),
        _ => None,
    }
}

/// Whether a load of shape `op` at `offset` past the base `base` read one
/// access there and pushed `out`, the loaded bytes widened.
pub open spec fn load_computes(op: OpCode, offset: u64, base: Word, out: Word, mem: Seq<MemAccess>) -> bool {
    let (bytes, signed, result64) = load_shape_spec(op);
    &&& mem.len() == 1
    &&& mem[0].address == ((word_bits(base) as u32) + offset) as u64
    &&& mem[0].width == bytes as u8
    &&& !mem[0].store
    &&& out == loaded_word(mem[0].value, bytes as nat, signed, result64)
}

/// Whether a store of `bytes` bytes at `offset` past the base `base` wrote the
/// low bytes of `value` there, and nothing else.
pub open spec fn store_computes(bytes: nat, offset: u64, value: Word, base: Word, mem: Seq<MemAccess>) -> bool {
    &&& mem.len() == 1
    &&& mem[0].address == ((word_bits(base) as u32) + offset) as u64
    &&& mem[0].width == bytes as u8
    &&& mem[0].store
    &&& mem[0].value == stored_raw(word_bits(value), bytes)
}

/// The values a record accessed, in order.
pub open spec fn values_of(accesses: Seq<RegAccess>) -> Seq<Word> {
    accesses.map_values(|a: RegAccess| a.value)
}

/// Whether the values a record of `instr` carries are the ones `instr`
/// computes: `reads` are the values it read (a bank read first, then the
/// popped operands, top first), `writes` the values it wrote, and `mem` its
/// memory accesses: a load reads the access it records at its effective
/// address and pushes the loaded bytes widened, a store records writing the
/// low bytes of its value there.
pub open spec fn computes(instr: Instruction, reads: Seq<Word>, writes: Seq<Word>, mem: Seq<MemAccess>) -> bool {
    if arith_kind(instr) is Some {
        reads.len() == 2 && writes.len() == 1 ==> mem.len() == 0 && spec_arithmetic(
            arith_kind(instr)->0,
            reads[1],
            reads[0],
        ) == Ok::<Word, Trap>(writes[0])
    } else if compare_kind(instr) is Some {
        reads.len() == 2 && writes.len() == 1 ==> mem.len() == 0 && writes[0] == spec_compare(
            compare_kind(instr)->0,
            reads[1],
            reads[0],
        )
    } else if unary_kind(instr) is Some {
        reads.len() == 1 && writes.len() == 1 ==> mem.len() == 0 && writes[0] == spec_unary(unary_kind(instr)->0, reads[0])
    } else if load_of(instr) is Some {
        let (op, offset) = load_of(instr)->0;
        reads.len() == 1 && writes.len() == 1 ==> load_computes(op, offset, reads[0], writes[0], mem)
    } else if store_of(instr) is Some {
        let (bytes, offset) = store_of(instr)->0;
        reads.len() == 2 && writes.len() == 0 ==> store_computes(bytes, offset, reads[0], reads[1], mem)
    } else {
        match instr {
            Instruction::I32Const { value } => writes.len() == 1 ==> mem.len() == 0 && writes[0] == Word::I32(value as u32),
            Instruction::I64Const { value } => writes.len() == 1 ==> mem.len() == 0 && writes[0] == Word::I64(value as u64),
            Instruction::LocalGet { .. } | Instruction::GlobalGet { .. } | Instruction::LocalSet { .. }
            | Instruction::GlobalSet { .. } | Instruction::LocalTee { .. } => reads.len() == 1 && writes.len() == 1
                ==> mem.len() == 0 && writes[0] == reads[0],
            Instruction::Select => reads.len() == 3 && writes.len() == 1 ==> mem.len() == 0 && writes[0] == (if word_bits(
                reads[0],
            ) != 0 {
                reads[2]
            } else {
                reads[1]
            }),
            Instruction::I32WrapI64 => reads.len() == 1 && writes.len() == 1 ==> mem.len() == 0 && writes[0] == Word::I32(
                word_bits(reads[0]) as u32,
            ),
            Instruction::I64ExtendI32S => reads.len() == 1 && writes.len() == 1 ==> mem.len() == 0 && writes[0]
                == Word::I64(extend_signed(word_bits(reads[0]) as u32)),
            Instruction::I64ExtendI32U => reads.len() == 1 && writes.len() == 1 ==> mem.len() == 0 && writes[0]
                == Word::I64((word_bits(reads[0]) as u32) as u64),
            _ => true,
        }
    }
}

/// Whether a record with these read and written registers names the registers
/// the value effect of `instr` names at some height.
pub open spec fn follows_value_effect(instr: Instruction, reads: Seq<Register>, writes: Seq<Register>) -> bool {
    match value_effect(instr, Seq::empty(), Seq::empty()) {
        Some(e) => exists|h: int| 0 <= h < 0x1_0000_0000 && #[trigger] value_reads(e, h) == reads && value_writes(e, h) == writes,
        None => false,
    }
}

/// An instruction that is not a data instruction makes no claim on the values
/// its record carries.
pub proof fn lemma_computes_outside_data(
    instr: Instruction,
    reads: Seq<Word>,
    writes: Seq<Word>,
    mem: Seq<MemAccess>,
    s: Seq<Word>,
    l: Seq<Word>,
    g: Seq<Word>,
    m: Seq<u8>,
    max_pages: Option<u64>,
)
    requires
        data_step(instr, s, l, g, m, max_pages) is None,
    ensures
        computes(instr, reads, writes, mem),
{
}

/// A data instruction run at height `h`, whose schedule names its value
/// effect's registers there, carries in its record the values it computes.
pub proof fn lemma_record_computes(
    instr: Instruction,
    h: int,
    s0: Seq<Word>,
    l0: Seq<Word>,
    g0: Seq<Word>,
    m0: Seq<u8>,
    max_pages: Option<u64>,
    s1: Seq<Word>,
    l1: Seq<Word>,
    g1: Seq<Word>,
    m1: Seq<u8>,
    pc: int,
    r: Result<StepOutcome, ExecuteError>,
    reads: Seq<RegAccess>,
    writes: Seq<RegAccess>,
)
    requires
        data_step(instr, s0, l0, g0, m0, max_pages) matches Some(step) && data_outcome(step, pc, r, s1, l1, g1, m1),
        r is Ok,
        s0.len() == h,
        0 <= h < 0x1_0000_0000,
        value_effect(instr, Seq::empty(), Seq::empty()) matches Some(e) && resolves(reads, value_reads(e, h), s0, l0, g0)
            && resolves(writes, value_writes(e, h), s1, l1, g1),
    ensures
        computes(instr, values_of(reads), values_of(writes), r->Ok_0.mem@),
{
    let e = value_effect(instr, Seq::empty(), Seq::empty())->0;
    lemma_value_positions(reads, value_reads(e, h), s0, l0, g0);
    lemma_value_positions(writes, value_writes(e, h), s1, l1, g1);
    if load_of(instr) is Some {
        lemma_load_record_computes(instr, h, s0, l0, g0, m0, max_pages, s1, l1, g1, m1, pc, r, reads, writes);
    } else if store_of(instr) is Some {
        lemma_store_record_computes(instr, h, s0, l0, g0, m0, max_pages, s1, l1, g1, m1, pc, r, reads, writes);
    } else {
        lemma_value_record_computes(instr, h, s0, l0, g0, m0, max_pages, s1, l1, g1, m1, pc, r, reads, writes);
    }
}

/// The values a record accessed are the ones its registers hold.
proof fn lemma_value_positions(accs: Seq<RegAccess>, regs: Seq<Register>, s: Seq<Word>, l: Seq<Word>, g: Seq<Word>)
    requires
        resolves(accs, regs, s, l, g),
    ensures
        values_of(accs).len() == regs.len(),
        forall|i: int| 0 <= i < regs.len() ==> #[trigger] values_of(accs)[i] == register_value(regs[i], s, l, g)->0,
{
    assert forall|i: int| 0 <= i < regs.len() implies #[trigger] values_of(accs)[i] == register_value(regs[i], s, l, g)->0 by {
        assert(accs[i] == (RegAccess { reg: regs[i], value: register_value(regs[i], s, l, g)->0 }));
    }
}

/// A load steps as its shape says, pops its base and pushes its value, and
/// is no arithmetic, comparison or test.
proof fn lemma_load_facts(instr: Instruction, s: Seq<Word>, l: Seq<Word>, g: Seq<Word>, m: Seq<u8>, max_pages: Option<u64>)
    requires
        load_of(instr) is Some,
    ensures
        ({
            let (op, offset) = load_of(instr)->0;
            let bytes = load_shape_spec(op).0;
            &&& data_step(instr, s, l, g, m, max_pages) == Some(load_step(op, offset, s, l, g, m))
            &&& bytes == 1 || bytes == 2 || bytes == 4 || bytes == 8
        }),
        value_effect(instr, Seq::empty(), Seq::empty()) == Some(crate::lift::program::ValueEffect::stack_spec(1, 1)),
        arith_kind(instr) is None && compare_kind(instr) is None && unary_kind(instr) is None,
{
}

/// A store steps as its width says, pops its value and base, and is no
/// arithmetic, comparison, test or load.
proof fn lemma_store_facts(instr: Instruction, s: Seq<Word>, l: Seq<Word>, g: Seq<Word>, m: Seq<u8>, max_pages: Option<u64>)
    requires
        store_of(instr) is Some,
    ensures
        ({
            let (bytes, offset) = store_of(instr)->0;
            &&& data_step(instr, s, l, g, m, max_pages) == Some(store_step(bytes, offset, s, l, g, m))
            &&& bytes == 1 || bytes == 2 || bytes == 4 || bytes == 8
        }),
        value_effect(instr, Seq::empty(), Seq::empty()) == Some(crate::lift::program::ValueEffect::stack_spec(2, 0)),
        arith_kind(instr) is None && compare_kind(instr) is None && unary_kind(instr) is None && load_of(instr) is None,
{
}

/// A load's record reads its base and the access it recorded, and writes the
/// loaded value.
proof fn lemma_load_record_computes(
    instr: Instruction,
    h: int,
    s0: Seq<Word>,
    l0: Seq<Word>,
    g0: Seq<Word>,
    m0: Seq<u8>,
    max_pages: Option<u64>,
    s1: Seq<Word>,
    l1: Seq<Word>,
    g1: Seq<Word>,
    m1: Seq<u8>,
    pc: int,
    r: Result<StepOutcome, ExecuteError>,
    reads: Seq<RegAccess>,
    writes: Seq<RegAccess>,
)
    requires
        data_step(instr, s0, l0, g0, m0, max_pages) matches Some(step) && data_outcome(step, pc, r, s1, l1, g1, m1),
        r is Ok,
        s0.len() == h,
        0 <= h < 0x1_0000_0000,
        value_effect(instr, Seq::empty(), Seq::empty()) matches Some(e) && resolves(reads, value_reads(e, h), s0, l0, g0)
            && resolves(writes, value_writes(e, h), s1, l1, g1),
        load_of(instr) is Some,
        ({
            let e = value_effect(instr, Seq::empty(), Seq::empty())->0;
            &&& forall|i: int| 0 <= i < reads.len() ==> #[trigger] values_of(reads)[i] == register_value(value_reads(e, h)[i], s0, l0, g0)->0
            &&& forall|i: int| 0 <= i < writes.len() ==> #[trigger] values_of(writes)[i] == register_value(value_writes(e, h)[i], s1, l1, g1)->0
        }),
    ensures
        computes(instr, values_of(reads), values_of(writes), r->Ok_0.mem@),
{
    lemma_load_facts(instr, s0, l0, g0, m0, max_pages);
    let e = value_effect(instr, Seq::empty(), Seq::empty())->0;
    assert(value_reads(e, h)[0] == Register::Stack((h - 1) as u32));
    assert(value_writes(e, h)[0] == Register::Stack((h - 1) as u32));
}

/// A store's record reads its value and base, and records the write.
proof fn lemma_store_record_computes(
    instr: Instruction,
    h: int,
    s0: Seq<Word>,
    l0: Seq<Word>,
    g0: Seq<Word>,
    m0: Seq<u8>,
    max_pages: Option<u64>,
    s1: Seq<Word>,
    l1: Seq<Word>,
    g1: Seq<Word>,
    m1: Seq<u8>,
    pc: int,
    r: Result<StepOutcome, ExecuteError>,
    reads: Seq<RegAccess>,
    writes: Seq<RegAccess>,
)
    requires
        data_step(instr, s0, l0, g0, m0, max_pages) matches Some(step) && data_outcome(step, pc, r, s1, l1, g1, m1),
        r is Ok,
        s0.len() == h,
        0 <= h < 0x1_0000_0000,
        value_effect(instr, Seq::empty(), Seq::empty()) matches Some(e) && resolves(reads, value_reads(e, h), s0, l0, g0)
            && resolves(writes, value_writes(e, h), s1, l1, g1),
        store_of(instr) is Some,
        ({
            let e = value_effect(instr, Seq::empty(), Seq::empty())->0;
            &&& forall|i: int| 0 <= i < reads.len() ==> #[trigger] values_of(reads)[i] == register_value(value_reads(e, h)[i], s0, l0, g0)->0
            &&& forall|i: int| 0 <= i < writes.len() ==> #[trigger] values_of(writes)[i] == register_value(value_writes(e, h)[i], s1, l1, g1)->0
        }),
    ensures
        computes(instr, values_of(reads), values_of(writes), r->Ok_0.mem@),
{
    lemma_store_facts(instr, s0, l0, g0, m0, max_pages);
    let e = value_effect(instr, Seq::empty(), Seq::empty())->0;
    assert(value_reads(e, h)[0] == Register::Stack((h - 1) as u32));
    assert(value_reads(e, h)[1] == Register::Stack((h - 2) as u32));
}

/// Any other data instruction's record carries the values it computes.
proof fn lemma_value_record_computes(
    instr: Instruction,
    h: int,
    s0: Seq<Word>,
    l0: Seq<Word>,
    g0: Seq<Word>,
    m0: Seq<u8>,
    max_pages: Option<u64>,
    s1: Seq<Word>,
    l1: Seq<Word>,
    g1: Seq<Word>,
    m1: Seq<u8>,
    pc: int,
    r: Result<StepOutcome, ExecuteError>,
    reads: Seq<RegAccess>,
    writes: Seq<RegAccess>,
)
    requires
        data_step(instr, s0, l0, g0, m0, max_pages) matches Some(step) && data_outcome(step, pc, r, s1, l1, g1, m1),
        r is Ok,
        s0.len() == h,
        0 <= h < 0x1_0000_0000,
        value_effect(instr, Seq::empty(), Seq::empty()) matches Some(e) && resolves(reads, value_reads(e, h), s0, l0, g0)
            && resolves(writes, value_writes(e, h), s1, l1, g1),
        load_of(instr) is None,
        store_of(instr) is None,
        ({
            let e = value_effect(instr, Seq::empty(), Seq::empty())->0;
            &&& forall|i: int| 0 <= i < reads.len() ==> #[trigger] values_of(reads)[i] == register_value(value_reads(e, h)[i], s0, l0, g0)->0
            &&& forall|i: int| 0 <= i < writes.len() ==> #[trigger] values_of(writes)[i] == register_value(value_writes(e, h)[i], s1, l1, g1)->0
        }),
    ensures
        computes(instr, values_of(reads), values_of(writes), r->Ok_0.mem@),
{
    let e = value_effect(instr, Seq::empty(), Seq::empty())->0;
    let vr = value_reads(e, h);
    if e.pops >= 1 {
        assert(vr[0] == Register::Stack((h - 1) as u32));
    }
    if e.pops >= 2 {
        assert(vr[1] == Register::Stack((h - 2) as u32));
    }
    if e.pops >= 3 {
        assert(vr[2] == Register::Stack((h - 3) as u32));
    }
}

impl Interpreter {
    /// Executes an instruction that moves a value.
    fn exec_variable(
        &mut self,
        instr: &Instruction,
        stack: &mut OperandStack,
        locals: &mut Vec<Word>,
        pc: usize,
    ) -> (r: Result<StepOutcome, ExecuteError>)
        requires
            pc < usize::MAX,
            is_variable(*instr),
        ensures
            data_outcome(
                data_step(
                    *instr,
                    old(stack)@,
                    old(locals)@,
                    old(self).globals@,
                    old(self).memory.bytes_view(),
                    old(self).memory.max_pages_view(),
                )->0,
                pc as int,
                r,
                final(stack)@,
                final(locals)@,
                final(self).globals@,
                final(self).memory.bytes_view(),
            ),
            r matches Ok(o) ==> opcode_of(*instr) == Some(o.opcode),
            final(self).globals@.len() == old(self).globals@.len(),
            final(self).memory.max_pages_view() == old(self).memory.max_pages_view(),
            final(self).steps == old(self).steps,
    {
        match instr {
            Instruction::Nop => Ok(StepOutcome::advance(OpCode::Nop, pc + 1)),
            Instruction::Drop => match stack.pop() {
                Ok(_) => Ok(StepOutcome::advance(OpCode::Drop, pc + 1)),
                Err(e) => Err(e),
            },
            Instruction::Select => {
                let ghost s0 = stack@;
                let cond = match stack.pop() {
                    Ok(w) => w,
                    Err(e) => {
                        return Err(e);
                    },
                };
                let rhs = match stack.pop() {
                    Ok(w) => w,
                    Err(e) => {
                        return Err(e);
                    },
                };
                let lhs = match stack.pop() {
                    Ok(w) => w,
                    Err(e) => {
                        return Err(e);
                    },
                };
                stack.push(
                    if cond.is_true() {
                        lhs
                    } else {
                        rhs
                    },
                );
                assert(stack@ =~= s0.subrange(0, s0.len() - 3).push(
                    if word_bits(s0.last()) != 0 {
                        s0[s0.len() - 3]
                    } else {
                        s0[s0.len() - 2]
                    },
                ));
                Ok(StepOutcome::advance(OpCode::Select, pc + 1))
            },
            Instruction::LocalGet { local_index } => {
                if *local_index as usize >= locals.len() {
                    return Err(ExecuteError::invalid_binary("local index out of range"));
                }
                stack.push(locals[*local_index as usize]);
                Ok(StepOutcome::advance(OpCode::LocalGet, pc + 1))
            },
            Instruction::LocalSet { local_index } => {
                let value = match stack.pop() {
                    Ok(w) => w,
                    Err(e) => {
                        return Err(e);
                    },
                };
                if *local_index as usize >= locals.len() {
                    return Err(ExecuteError::invalid_binary("local index out of range"));
                }
                locals.set(*local_index as usize, value);
                Ok(StepOutcome::advance(OpCode::LocalSet, pc + 1))
            },
            Instruction::LocalTee { local_index } => {
                let value = match stack.last() {
                    Some(w) => *w,
                    None => {
                        return Err(ExecuteError::invalid_binary("operand stack underflow"));
                    },
                };
                if *local_index as usize >= locals.len() {
                    return Err(ExecuteError::invalid_binary("local index out of range"));
                }
                locals.set(*local_index as usize, value);
                Ok(StepOutcome::advance(OpCode::LocalTee, pc + 1))
            },
            Instruction::GlobalGet { global_index } => {
                if *global_index as usize >= self.globals.len() {
                    return Err(ExecuteError::invalid_binary("global index out of range"));
                }
                stack.push(self.globals[*global_index as usize]);
                Ok(StepOutcome::advance(OpCode::GlobalGet, pc + 1))
            },
            Instruction::GlobalSet { global_index } => {
                let value = match stack.pop() {
                    Ok(w) => w,
                    Err(e) => {
                        return Err(e);
                    },
                };
                if *global_index as usize >= self.globals.len() {
                    return Err(ExecuteError::invalid_binary("global index out of range"));
                }
                self.globals.set(*global_index as usize, value);
                Ok(StepOutcome::advance(OpCode::GlobalSet, pc + 1))
            },
            Instruction::I32Const { value } => {
                stack.push(Word::I32(*value as u32));
                Ok(StepOutcome::advance(OpCode::I32Const, pc + 1))
            },
            Instruction::I64Const { value } => {
                stack.push(Word::I64(*value as u64));
                Ok(StepOutcome::advance(OpCode::I64Const, pc + 1))
            },
            Instruction::I32WrapI64 => match stack.pop() {
                Ok(w) => {
                    let (bits, _) = w.raw();
                    stack.push(Word::I32(bits as u32));
                    Ok(StepOutcome::advance(OpCode::I32WrapI64, pc + 1))
                },
                Err(e) => Err(e),
            },
            Instruction::I64ExtendI32S => match stack.pop() {
                Ok(w) => {
                    let b = w.as_u32();
                    let extended: u64 = if b >= 0x8000_0000 {
                        b as u64 + 0xFFFF_FFFF_0000_0000
                    } else {
                        b as u64
                    };
                    stack.push(Word::I64(extended));
                    Ok(StepOutcome::advance(OpCode::I64ExtendI32S, pc + 1))
                },
                Err(e) => Err(e),
            },
            Instruction::I64ExtendI32U => match stack.pop() {
                Ok(w) => {
                    let b = w.as_u32();
                    stack.push(Word::I64(b as u64));
                    Ok(StepOutcome::advance(OpCode::I64ExtendI32U, pc + 1))
                },
                Err(e) => Err(e),
            },

            _ => Err(ExecuteError::invalid_binary("not an instruction of this family")),
        }
    }

    /// Executes a memory instruction.
    fn exec_memory(
        &mut self,
        instr: &Instruction,
        stack: &mut OperandStack,
        locals: &mut Vec<Word>,
        pc: usize,
    ) -> (r: Result<StepOutcome, ExecuteError>)
        requires
            pc < usize::MAX,
            is_memory(*instr),
        ensures
            data_outcome(
                data_step(
                    *instr,
                    old(stack)@,
                    old(locals)@,
                    old(self).globals@,
                    old(self).memory.bytes_view(),
                    old(self).memory.max_pages_view(),
                )->0,
                pc as int,
                r,
                final(stack)@,
                final(locals)@,
                final(self).globals@,
                final(self).memory.bytes_view(),
            ),
            r matches Ok(o) ==> opcode_of(*instr) == Some(o.opcode),
            final(self).globals@.len() == old(self).globals@.len(),
            final(self).memory.max_pages_view() == old(self).memory.max_pages_view(),
            final(self).steps == old(self).steps,
    {
        match instr {
            Instruction::I32Load { offset } => self.load(stack, *offset, OpCode::I32Load, pc),
            Instruction::I64Load { offset } => self.load(stack, *offset, OpCode::I64Load, pc),
            Instruction::I32Load8S { offset } => self.load(stack, *offset, OpCode::I32Load8S, pc),
            Instruction::I32Load8U { offset } => self.load(stack, *offset, OpCode::I32Load8U, pc),
            Instruction::I32Load16S { offset } => self.load(stack, *offset, OpCode::I32Load16S, pc),
            Instruction::I32Load16U { offset } => self.load(stack, *offset, OpCode::I32Load16U, pc),
            Instruction::I64Load8S { offset } => self.load(stack, *offset, OpCode::I64Load8S, pc),
            Instruction::I64Load8U { offset } => self.load(stack, *offset, OpCode::I64Load8U, pc),
            Instruction::I64Load16S { offset } => self.load(stack, *offset, OpCode::I64Load16S, pc),
            Instruction::I64Load16U { offset } => self.load(stack, *offset, OpCode::I64Load16U, pc),
            Instruction::I64Load32S { offset } => self.load(stack, *offset, OpCode::I64Load32S, pc),
            Instruction::I64Load32U { offset } => self.load(stack, *offset, OpCode::I64Load32U, pc),
            Instruction::I32Store { offset } => self.store(stack, *offset, 4, OpCode::I32Store, pc),
            Instruction::I64Store { offset } => self.store(stack, *offset, 8, OpCode::I64Store, pc),
            Instruction::I32Store8 { offset } => self.store(stack, *offset, 1, OpCode::I32Store8, pc),
            Instruction::I32Store16 { offset } => self.store(stack, *offset, 2, OpCode::I32Store16, pc),
            Instruction::I64Store8 { offset } => self.store(stack, *offset, 1, OpCode::I64Store8, pc),
            Instruction::I64Store16 { offset } => self.store(stack, *offset, 2, OpCode::I64Store16, pc),
            Instruction::I64Store32 { offset } => self.store(stack, *offset, 4, OpCode::I64Store32, pc),
            Instruction::MemorySize => Ok(self.size(stack, pc)),
            Instruction::MemoryGrow => self.grow(stack, pc),
            _ => Err(ExecuteError::invalid_binary("not an instruction of this family")),
        }
    }

    /// Executes a test or comparison.
    fn exec_test(
        &mut self,
        instr: &Instruction,
        stack: &mut OperandStack,
        locals: &mut Vec<Word>,
        pc: usize,
    ) -> (r: Result<StepOutcome, ExecuteError>)
        requires
            pc < usize::MAX,
            is_test(*instr),
        ensures
            data_outcome(
                data_step(
                    *instr,
                    old(stack)@,
                    old(locals)@,
                    old(self).globals@,
                    old(self).memory.bytes_view(),
                    old(self).memory.max_pages_view(),
                )->0,
                pc as int,
                r,
                final(stack)@,
                final(locals)@,
                final(self).globals@,
                final(self).memory.bytes_view(),
            ),
            r matches Ok(o) ==> opcode_of(*instr) == Some(o.opcode),
            final(self).globals@.len() == old(self).globals@.len(),
            final(self).memory.max_pages_view() == old(self).memory.max_pages_view(),
            final(self).steps == old(self).steps,
    {
        match instr {
            Instruction::I32Eqz => unop(stack, Unary::Eqz, OpCode::I32Eqz, pc),
            Instruction::I64Eqz => unop(stack, Unary::Eqz, OpCode::I64Eqz, pc),
            Instruction::I32Clz => unop(stack, Unary::Clz, OpCode::I32Clz, pc),
            Instruction::I32Ctz => unop(stack, Unary::Ctz, OpCode::I32Ctz, pc),
            Instruction::I32Popcnt => unop(stack, Unary::Popcnt, OpCode::I32Popcnt, pc),
            Instruction::I64Clz => unop(stack, Unary::Clz, OpCode::I64Clz, pc),
            Instruction::I64Ctz => unop(stack, Unary::Ctz, OpCode::I64Ctz, pc),
            Instruction::I64Popcnt => unop(stack, Unary::Popcnt, OpCode::I64Popcnt, pc),
            Instruction::I32Eq => relop(stack, Compare::Eq, OpCode::I32Eq, pc),
            Instruction::I32Ne => relop(stack, Compare::Ne, OpCode::I32Ne, pc),
            Instruction::I32LtS => relop(stack, Compare::LtS, OpCode::I32LtS, pc),
            Instruction::I32LtU => relop(stack, Compare::LtU, OpCode::I32LtU, pc),
            Instruction::I32GtS => relop(stack, Compare::GtS, OpCode::I32GtS, pc),
            Instruction::I32GtU => relop(stack, Compare::GtU, OpCode::I32GtU, pc),
            Instruction::I32LeS => relop(stack, Compare::LeS, OpCode::I32LeS, pc),
            Instruction::I32LeU => relop(stack, Compare::LeU, OpCode::I32LeU, pc),
            Instruction::I32GeS => relop(stack, Compare::GeS, OpCode::I32GeS, pc),
            Instruction::I32GeU => relop(stack, Compare::GeU, OpCode::I32GeU, pc),
            Instruction::I64Eq => relop(stack, Compare::Eq, OpCode::I64Eq, pc),
            Instruction::I64Ne => relop(stack, Compare::Ne, OpCode::I64Ne, pc),
            Instruction::I64LtS => relop(stack, Compare::LtS, OpCode::I64LtS, pc),
            Instruction::I64LtU => relop(stack, Compare::LtU, OpCode::I64LtU, pc),
            Instruction::I64GtS => relop(stack, Compare::GtS, OpCode::I64GtS, pc),
            Instruction::I64GtU => relop(stack, Compare::GtU, OpCode::I64GtU, pc),
            Instruction::I64LeS => relop(stack, Compare::LeS, OpCode::I64LeS, pc),
            Instruction::I64LeU => relop(stack, Compare::LeU, OpCode::I64LeU, pc),
            Instruction::I64GeS => relop(stack, Compare::GeS, OpCode::I64GeS, pc),
            Instruction::I64GeU => relop(stack, Compare::GeU, OpCode::I64GeU, pc),
            _ => Err(ExecuteError::invalid_binary("not an instruction of this family")),
        }
    }

    /// Executes a two-operand arithmetic instruction.
    fn exec_arith(
        &mut self,
        instr: &Instruction,
        stack: &mut OperandStack,
        locals: &mut Vec<Word>,
        pc: usize,
    ) -> (r: Result<StepOutcome, ExecuteError>)
        requires
            pc < usize::MAX,
            is_arith(*instr),
        ensures
            data_outcome(
                data_step(
                    *instr,
                    old(stack)@,
                    old(locals)@,
                    old(self).globals@,
                    old(self).memory.bytes_view(),
                    old(self).memory.max_pages_view(),
                )->0,
                pc as int,
                r,
                final(stack)@,
                final(locals)@,
                final(self).globals@,
                final(self).memory.bytes_view(),
            ),
            r matches Ok(o) ==> opcode_of(*instr) == Some(o.opcode),
            final(self).globals@.len() == old(self).globals@.len(),
            final(self).memory.max_pages_view() == old(self).memory.max_pages_view(),
            final(self).steps == old(self).steps,
    {
        match instr {
            Instruction::I32Add => binop(stack, Arithmetic::Add, OpCode::I32Add, pc),
            Instruction::I32Sub => binop(stack, Arithmetic::Sub, OpCode::I32Sub, pc),
            Instruction::I32Mul => binop(stack, Arithmetic::Mul, OpCode::I32Mul, pc),
            Instruction::I32DivS => binop(stack, Arithmetic::DivS, OpCode::I32DivS, pc),
            Instruction::I32DivU => binop(stack, Arithmetic::DivU, OpCode::I32DivU, pc),
            Instruction::I32RemS => binop(stack, Arithmetic::RemS, OpCode::I32RemS, pc),
            Instruction::I32RemU => binop(stack, Arithmetic::RemU, OpCode::I32RemU, pc),
            Instruction::I32And => binop(stack, Arithmetic::And, OpCode::I32And, pc),
            Instruction::I32Or => binop(stack, Arithmetic::Or, OpCode::I32Or, pc),
            Instruction::I32Xor => binop(stack, Arithmetic::Xor, OpCode::I32Xor, pc),
            Instruction::I32Shl => binop(stack, Arithmetic::Shl, OpCode::I32Shl, pc),
            Instruction::I32ShrS => binop(stack, Arithmetic::ShrS, OpCode::I32ShrS, pc),
            Instruction::I32ShrU => binop(stack, Arithmetic::ShrU, OpCode::I32ShrU, pc),
            Instruction::I32Rotl => binop(stack, Arithmetic::Rotl, OpCode::I32Rotl, pc),
            Instruction::I32Rotr => binop(stack, Arithmetic::Rotr, OpCode::I32Rotr, pc),
            Instruction::I64Add => binop(stack, Arithmetic::Add, OpCode::I64Add, pc),
            Instruction::I64Sub => binop(stack, Arithmetic::Sub, OpCode::I64Sub, pc),
            Instruction::I64Mul => binop(stack, Arithmetic::Mul, OpCode::I64Mul, pc),
            Instruction::I64DivS => binop(stack, Arithmetic::DivS, OpCode::I64DivS, pc),
            Instruction::I64DivU => binop(stack, Arithmetic::DivU, OpCode::I64DivU, pc),
            Instruction::I64RemS => binop(stack, Arithmetic::RemS, OpCode::I64RemS, pc),
            Instruction::I64RemU => binop(stack, Arithmetic::RemU, OpCode::I64RemU, pc),
            Instruction::I64And => binop(stack, Arithmetic::And, OpCode::I64And, pc),
            Instruction::I64Or => binop(stack, Arithmetic::Or, OpCode::I64Or, pc),
            Instruction::I64Xor => binop(stack, Arithmetic::Xor, OpCode::I64Xor, pc),
            Instruction::I64Shl => binop(stack, Arithmetic::Shl, OpCode::I64Shl, pc),
            Instruction::I64ShrS => binop(stack, Arithmetic::ShrS, OpCode::I64ShrS, pc),
            Instruction::I64ShrU => binop(stack, Arithmetic::ShrU, OpCode::I64ShrU, pc),
            Instruction::I64Rotl => binop(stack, Arithmetic::Rotl, OpCode::I64Rotl, pc),
            Instruction::I64Rotr => binop(stack, Arithmetic::Rotr, OpCode::I64Rotr, pc),
            _ => Err(ExecuteError::invalid_binary("not an instruction of this family")),
        }
    }

    /// Executes a data instruction at program point `pc`: the values it moves
    /// and computes, and the memory it reads and writes. `None` for any other
    /// instruction.
    pub(crate) fn exec_data(
        &mut self,
        instr: &Instruction,
        stack: &mut OperandStack,
        locals: &mut Vec<Word>,
        pc: usize,
    ) -> (r: Option<Result<StepOutcome, ExecuteError>>)
        requires
            pc < usize::MAX,
        ensures
            ({
                let step = data_step(
                    *instr,
                    old(stack)@,
                    old(locals)@,
                    old(self).globals@,
                    old(self).memory.bytes_view(),
                    old(self).memory.max_pages_view(),
                );
                &&& r is None <==> step is None
                &&& r matches Some(res) ==> data_outcome(
                    step->0,
                    pc as int,
                    res,
                    final(stack)@,
                    final(locals)@,
                    final(self).globals@,
                    final(self).memory.bytes_view(),
                )
                &&& r matches Some(Ok(o)) ==> opcode_of(*instr) == Some(o.opcode)
            }),
            final(self).globals@.len() == old(self).globals@.len(),
            final(self).memory.max_pages_view() == old(self).memory.max_pages_view(),
            final(self).steps == old(self).steps,
    {
        match instr {
            Instruction::Nop
            | Instruction::Drop
            | Instruction::Select
            | Instruction::LocalGet { .. }
            | Instruction::LocalSet { .. }
            | Instruction::LocalTee { .. }
            | Instruction::GlobalGet { .. }
            | Instruction::GlobalSet { .. }
            | Instruction::I32Const { .. }
            | Instruction::I64Const { .. }
            | Instruction::I32WrapI64
            | Instruction::I64ExtendI32S
            | Instruction::I64ExtendI32U => Some(self.exec_variable(instr, stack, locals, pc)),
            Instruction::I32Load { .. }
            | Instruction::I64Load { .. }
            | Instruction::I32Load8S { .. }
            | Instruction::I32Load8U { .. }
            | Instruction::I32Load16S { .. }
            | Instruction::I32Load16U { .. }
            | Instruction::I64Load8S { .. }
            | Instruction::I64Load8U { .. }
            | Instruction::I64Load16S { .. }
            | Instruction::I64Load16U { .. }
            | Instruction::I64Load32S { .. }
            | Instruction::I64Load32U { .. }
            | Instruction::I32Store { .. }
            | Instruction::I64Store { .. }
            | Instruction::I32Store8 { .. }
            | Instruction::I32Store16 { .. }
            | Instruction::I64Store8 { .. }
            | Instruction::I64Store16 { .. }
            | Instruction::I64Store32 { .. }
            | Instruction::MemorySize
            | Instruction::MemoryGrow => Some(self.exec_memory(instr, stack, locals, pc)),
            Instruction::I32Eqz
            | Instruction::I64Eqz
            | Instruction::I32Clz
            | Instruction::I32Ctz
            | Instruction::I32Popcnt
            | Instruction::I64Clz
            | Instruction::I64Ctz
            | Instruction::I64Popcnt
            | Instruction::I32Eq
            | Instruction::I32Ne
            | Instruction::I32LtS
            | Instruction::I32LtU
            | Instruction::I32GtS
            | Instruction::I32GtU
            | Instruction::I32LeS
            | Instruction::I32LeU
            | Instruction::I32GeS
            | Instruction::I32GeU
            | Instruction::I64Eq
            | Instruction::I64Ne
            | Instruction::I64LtS
            | Instruction::I64LtU
            | Instruction::I64GtS
            | Instruction::I64GtU
            | Instruction::I64LeS
            | Instruction::I64LeU
            | Instruction::I64GeS
            | Instruction::I64GeU => Some(self.exec_test(instr, stack, locals, pc)),
            Instruction::I32Add
            | Instruction::I32Sub
            | Instruction::I32Mul
            | Instruction::I32DivS
            | Instruction::I32DivU
            | Instruction::I32RemS
            | Instruction::I32RemU
            | Instruction::I32And
            | Instruction::I32Or
            | Instruction::I32Xor
            | Instruction::I32Shl
            | Instruction::I32ShrS
            | Instruction::I32ShrU
            | Instruction::I32Rotl
            | Instruction::I32Rotr
            | Instruction::I64Add
            | Instruction::I64Sub
            | Instruction::I64Mul
            | Instruction::I64DivS
            | Instruction::I64DivU
            | Instruction::I64RemS
            | Instruction::I64RemU
            | Instruction::I64And
            | Instruction::I64Or
            | Instruction::I64Xor
            | Instruction::I64Shl
            | Instruction::I64ShrS
            | Instruction::I64ShrU
            | Instruction::I64Rotl
            | Instruction::I64Rotr => Some(self.exec_arith(instr, stack, locals, pc)),
            _ => None,
        }
    }
}

} // verus!
