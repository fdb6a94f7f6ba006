//! The register file of the executing frame as the trace addresses it, and
//! the opcode families the witness columns single out.

use vstd::prelude::*;
use crate::decoder::opcode::OpCode;
use crate::decoder::types::{Word, word_bits};
use crate::lift::program::{LiftedFunction, Register, Successors};
use crate::trace::error::TraceError;
use crate::trace::layout::REGISTER_REGION;

verus! {

/// Register-file dimensions of the executing frame, used to resolve a register
/// operand to its address in the unified space.
#[derive(Clone, Copy, Debug, PartialEq, Eq, Structural)]
pub struct ExecFrame {
    /// Local slots: parameters then declared locals.
    pub locals: usize,
    /// Module globals.
    pub globals: usize,
    /// The register-file width.
    pub width: usize,
}

impl ExecFrame {
    /// The frame dimensions of a lifted function.
    pub fn of(func: &LiftedFunction) -> (r: Self)
        ensures
            r.locals == func.locals_count && r.globals == func.globals_count && r.width == func.reg_file_width,
    {
        ExecFrame { locals: func.locals_count as usize, globals: func.globals_count as usize, width: func.reg_file_width as usize }
    }
}

/// The offset of a register in the frame's file: locals first, then globals,
/// then operand-stack slots.
pub open spec fn register_offset(register: Register, frame: ExecFrame) -> int {
    match register {
        Register::Local(index) => index as int,
        Register::Global(index) => frame.locals + index,
        Register::Stack(depth) => frame.locals + frame.globals + depth,
    }
}

/// The offset of `register` in the frame's register file, which it must lie
/// inside.
pub fn resolve_register(register: Register, frame: ExecFrame) -> (r: Result<usize, TraceError>)
    ensures
        register_offset(register, frame) < frame.width ==> r == Ok::<usize, TraceError>(register_offset(register, frame) as usize),
        register_offset(register, frame) >= frame.width ==> r == Err::<usize, TraceError>(
            TraceError::RegisterOutOfRange { register, width: frame.width },
        ),
{
    let offset: Option<usize> = match register {
        Register::Local(index) => Some(index as usize),
        Register::Global(index) => frame.locals.checked_add(index as usize),
        Register::Stack(depth) => match frame.locals.checked_add(frame.globals) {
            Some(base) => base.checked_add(depth as usize),
            None => None,
        },
    };
    match offset {
        Some(o) => {
            if o < frame.width {
                Ok(o)
            } else {
                Err(TraceError::RegisterOutOfRange { register, width: frame.width })
            }
        },
        None => Err(TraceError::RegisterOutOfRange { register, width: frame.width }),
    }
}

/// The address of `register` in the unified space: the register region sits
/// above every linear-memory byte address.
pub fn register_address(register: Register, frame: ExecFrame) -> (r: Result<u64, TraceError>)
    requires
        REGISTER_REGION + frame.width <= u64::MAX,
    ensures
        register_offset(register, frame) < frame.width ==> r == Ok::<u64, TraceError>(
            (REGISTER_REGION + register_offset(register, frame)) as u64,
        ),
        register_offset(register, frame) >= frame.width ==> r is Err,
{
    let offset = resolve_register(register, frame)?;
    Ok(REGISTER_REGION + offset as u64)
}

/// Registers of the frame and linear memory never share an address: every
/// register address lies at or above `2^32`, every byte address of a 32-bit
/// memory below it.
pub proof fn law_registers_do_not_alias_memory(register: Register, frame: ExecFrame, byte_address: u64)
    requires
        register_offset(register, frame) < frame.width,
        byte_address < 0x1_0000_0000,
    ensures
        REGISTER_REGION + register_offset(register, frame) != byte_address,
{
}

/// Whether an opcode is a two-operand comparison.
pub open spec fn binary_compare(op: OpCode) -> bool {
    op == OpCode::I32Eq || op == OpCode::I32Ne || op == OpCode::I32LtS || op == OpCode::I32LtU || op == OpCode::I32GtS
        || op == OpCode::I32GtU || op == OpCode::I32LeS || op == OpCode::I32LeU || op == OpCode::I32GeS || op
        == OpCode::I32GeU || i64_compare(op)
}

/// Whether an opcode is a signed comparison.
pub open spec fn signed_compare(op: OpCode) -> bool {
    op == OpCode::I32LtS || op == OpCode::I32GtS || op == OpCode::I32LeS || op == OpCode::I32GeS || op == OpCode::I64LtS
        || op == OpCode::I64GtS || op == OpCode::I64LeS || op == OpCode::I64GeS
}

/// Whether an opcode is a 64-bit comparison.
pub open spec fn i64_compare(op: OpCode) -> bool {
    op == OpCode::I64Eq || op == OpCode::I64Ne || op == OpCode::I64LtS || op == OpCode::I64LtU || op == OpCode::I64GtS
        || op == OpCode::I64GtU || op == OpCode::I64LeS || op == OpCode::I64LeU || op == OpCode::I64GeS || op
        == OpCode::I64GeU
}

/// Whether an opcode is a bitwise `and`, `or`, or `xor`.
pub open spec fn bitwise(op: OpCode) -> bool {
    op == OpCode::I32And || op == OpCode::I32Or || op == OpCode::I32Xor || op == OpCode::I64And || op == OpCode::I64Or
        || op == OpCode::I64Xor
}

/// Whether an opcode is a two-operand comparison.
pub fn is_binary_compare(op: OpCode) -> (r: bool)
    ensures
        r == binary_compare(op),
{
    match op {
        OpCode::I32Eq | OpCode::I32Ne | OpCode::I32LtS | OpCode::I32LtU | OpCode::I32GtS | OpCode::I32GtU
        | OpCode::I32LeS | OpCode::I32LeU | OpCode::I32GeS | OpCode::I32GeU => true,
        _ => is_i64_compare(op),
    }
}

/// Whether an opcode is a signed comparison.
pub fn is_signed_compare(op: OpCode) -> (r: bool)
    ensures
        r == signed_compare(op),
{
    match op {
        OpCode::I32LtS | OpCode::I32GtS | OpCode::I32LeS | OpCode::I32GeS | OpCode::I64LtS | OpCode::I64GtS
        | OpCode::I64LeS | OpCode::I64GeS => true,
        _ => false,
    }
}

/// Whether an opcode is a 64-bit comparison.
pub fn is_i64_compare(op: OpCode) -> (r: bool)
    ensures
        r == i64_compare(op),
{
    match op {
        OpCode::I64Eq | OpCode::I64Ne | OpCode::I64LtS | OpCode::I64LtU | OpCode::I64GtS | OpCode::I64GtU
        | OpCode::I64LeS | OpCode::I64LeU | OpCode::I64GeS | OpCode::I64GeU => true,
        _ => false,
    }
}

/// Whether an opcode is a bitwise `and`, `or`, or `xor`.
pub fn is_bitwise(op: OpCode) -> (r: bool)
    ensures
        r == bitwise(op),
{
    match op {
        OpCode::I32And | OpCode::I32Or | OpCode::I32Xor | OpCode::I64And | OpCode::I64Or | OpCode::I64Xor => true,
        _ => false,
    }
}

/// The number of control-flow edges a successor set contributes.
pub open spec fn successor_edges(s: Successors) -> int {
    match s {
        Successors::Branch { .. } => 2,
        Successors::Table { targets, .. } => targets@.len() + 1int,
        _ => 1,
    }
}

/// The edges of the first `n` schedules of `f`.
pub open spec fn edges_upto(f: LiftedFunction, n: nat) -> int
    decreases n,
{
    if n == 0 {
        0
    } else {
        edges_upto(f, (n - 1) as nat) + successor_edges(f.schedules@[n - 1].successors)
    }
}

/// A bound on the program ROM's size: every successor edge, one halt edge per
/// program point, and the padding edge; saturating at `usize::MAX`.
pub fn edge_count(function: &LiftedFunction) -> (r: usize)
    requires
        edges_upto(*function, function.schedules@.len()) <= usize::MAX,
    ensures
        edges_upto(*function, function.schedules@.len()) + function.schedules@.len() + 1 <= usize::MAX ==> r
            == edges_upto(*function, function.schedules@.len()) + function.schedules@.len() + 1,
        edges_upto(*function, function.schedules@.len()) + function.schedules@.len() + 1 > usize::MAX ==> r == usize::MAX,
{
    let mut total: usize = 0;
    let mut i: usize = 0;
    while i < function.schedules.len()
        invariant
            i <= function.schedules@.len(),
            total == edges_upto(*function, i as nat),
            edges_upto(*function, function.schedules@.len()) <= usize::MAX,
        decreases function.schedules.len() - i,
    {
        proof {
            lemma_edges_monotone(*function, (i + 1) as nat, function.schedules@.len());
        }
        let edges: usize = match &function.schedules[i].successors {
            Successors::Branch { .. } => 2,
            Successors::Table { targets, .. } => targets.len() + 1,
            _ => 1,
        };
        total = total + edges;
        i = i + 1;
    }
    let n = function.schedules.len();
    if total > usize::MAX - n {
        return usize::MAX;
    }
    if total + n == usize::MAX {
        return usize::MAX;
    }
    total + n + 1
}

proof fn lemma_edges_monotone(f: LiftedFunction, m: nat, n: nat)
    requires
        m <= n <= f.schedules@.len(),
    ensures
        edges_upto(f, m) <= edges_upto(f, n),
        edges_upto(f, m) >= 0,
    decreases n,
{
    if m < n {
        lemma_edges_monotone(f, m, (n - 1) as nat);
    } else if n > 0 {
        lemma_edges_monotone(f, (n - 1) as nat, (n - 1) as nat);
    }
}

/// The initial value of every register-file slot, as its address and value
/// limbs: the arguments in the local slots they fill, the globals above them,
/// zero elsewhere.
pub fn initial_state(frame: ExecFrame, args: &[Word], globals: &[Word]) -> (r: Vec<(u64, u64, u64)>)
    requires
        REGISTER_REGION + frame.width <= u64::MAX,
    ensures
        r@.len() == frame.width,
        forall|o: int| 0 <= o < frame.width ==> (#[trigger] r@[o]).0 == REGISTER_REGION + o,
        forall|o: int| 0 <= o < frame.width && o < frame.locals && o < args@.len() ==> (#[trigger] r@[o]).1
            + r@[o].2 * 0x1_0000_0000 == word_bits(args@[o]),
        forall|o: int| 0 <= o < frame.width && frame.locals <= o < frame.locals + frame.globals && o - frame.locals
            < globals@.len() ==> (#[trigger] r@[o]).1 + r@[o].2 * 0x1_0000_0000 == word_bits(globals@[o - frame.locals]),
{
    let mut out: Vec<(u64, u64, u64)> = Vec::new();
    let mut offset: usize = 0;
    while offset < frame.width
        invariant
            offset <= frame.width,
            REGISTER_REGION + frame.width <= u64::MAX,
            out@.len() == offset,
            forall|o: int| 0 <= o < offset ==> (#[trigger] out@[o]).0 == REGISTER_REGION + o,
            forall|o: int| 0 <= o < offset && o < frame.locals && o < args@.len() ==> (#[trigger] out@[o]).1
                + out@[o].2 * 0x1_0000_0000 == word_bits(args@[o]),
            forall|o: int| 0 <= o < offset && frame.locals <= o < frame.locals + frame.globals && o - frame.locals
                < globals@.len() ==> (#[trigger] out@[o]).1 + out@[o].2 * 0x1_0000_0000 == word_bits(globals@[o - frame.locals]),
        decreases frame.width - offset,
    {
        let value: Option<Word> = if offset < frame.locals {
            if offset < args.len() {
                Some(args[offset])
            } else {
                None
            }
        } else if offset - frame.locals < frame.globals {
            if offset - frame.locals < globals.len() {
                Some(globals[offset - frame.locals])
            } else {
                None
            }
        } else {
            None
        };
        let (lo, hi) = match value {
            Some(w) => w.to_limbs(),
            None => (0, 0),
        };
        out.push((REGISTER_REGION + offset as u64, lo, hi));
        offset = offset + 1;
    }
    out
}

} // verus!
