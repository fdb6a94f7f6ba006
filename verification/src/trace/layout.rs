//! Column layout of the register-shaped trace.
//!
//! The main-trace columns are laid out in five contiguous groups, low index to
//! high: the control columns, the execution-order value bus ([`BUS_SLOTS`]
//! slots of `(addr, lo, hi, is_write, active)`), the address-sorted access log
//! ([`BUS_SLOTS`] entries of `(addr, ts, lo, hi, is_write, active, same_addr)`),
//! the one-hot opcode selector block, and the per-opcode arithmetic witness
//! block.
//!
//! Every runtime value is carried as two little-endian 32-bit limbs `(lo, hi)`
//! with the value equal to `lo + hi * 2^32`. The address space keeps linear
//! memory in the low `2^32` byte range and the register file above it, so a
//! register address never collides with a memory address.

pub mod slot;
pub mod sorted;

use vstd::prelude::*;
use crate::trace::selector::NUM_SELECTORS;

verus! {

/// Field limbs per value: an `i64` needs two 32-bit limbs, an `i32` uses the low
/// limb alone (high limb zero).
pub const REGISTER_LIMBS: usize = 2;

/// Access slots on the value bus, and equally the number of address-sorted log
/// entries laid down per row.
pub const BUS_SLOTS: usize = 4;

/// First byte address of the register file.
pub const REGISTER_REGION: u64 = 0x1_0000_0000;

/// Entries of the range checks' byte table: one per byte value.
pub const RANGE_TABLE_SIZE: usize = 256;

/// Bytes in one 32-bit limb, as the range checks decompose it.
pub const LIMB_BYTES: usize = 4;

/// Four-bit nibbles in one 32-bit limb.
pub const LIMB_NIBBLES: usize = 8;

/// Nibbles per bitwise operand: both limbs of a 64-bit value.
pub const BW_NIBBLES: usize = 16;

/// Bytes per popcount operand: both limbs of a 64-bit value.
pub const POPCNT_BYTES: usize = 8;

/// Program counter: the operator's index within its function body.
pub const COL_PC: usize = 0;
/// Row clock: the zero-based row index.
pub const COL_CLK: usize = 1;
/// Base address of the executing activation's register frame. Zero for a single call frame.
pub const COL_FRAME_BASE: usize = 2;
/// Operand-stack height entering the operator.
pub const COL_HEIGHT: usize = 3;
/// Register-file offset of the local or global slot the operator touches, or zero
/// for operators that touch none.
pub const COL_IMM: usize = 4;

/// First column of the execution-order value bus.
pub const BUS_BASE: usize = 5;
/// Columns per value-bus slot: the access address, its value's two limbs, the
/// store flag, and the active flag.
pub const BUS_SLOT_COLS: usize = 5;

/// First column of the address-sorted access log.
pub const SORTED_BASE: usize = BUS_BASE + BUS_SLOTS * BUS_SLOT_COLS;
/// Columns per sorted-log entry: the address, the originating timestamp, the two
/// value limbs, the store flag, the active flag, and the sortedness witness.
pub const SORTED_SLOT_COLS: usize = 7;

/// First selector column. The one-hot selector block spans
/// `[SELECTOR_BASE, SELECTOR_BASE + NUM_SELECTORS)`; exactly one column in it is one
/// on every row.
pub const SELECTOR_BASE: usize = SORTED_BASE + BUS_SLOTS * SORTED_SLOT_COLS;

/// Arithmetic-witness columns shared by the value-bus opcode families. The widest
/// consumer is 64-bit multiplication, whose four 32-bit partial-product limbs and
/// two carry limbs pin the full 128-bit product before it is truncated.
pub const WITNESS_COLS: usize = 6;

/// First column of the value-bus slot at index `slot`.
pub fn bus_slot(slot: usize) -> (r: usize)
    requires
        BUS_BASE + slot * BUS_SLOT_COLS <= usize::MAX,
    ensures
        r == BUS_BASE + slot * BUS_SLOT_COLS,
{
    BUS_BASE + slot * BUS_SLOT_COLS
}

/// First column of the sorted-log entry at index `slot`.
pub fn sorted_slot(slot: usize) -> (r: usize)
    requires
        SORTED_BASE + slot * SORTED_SLOT_COLS <= usize::MAX,
    ensures
        r == SORTED_BASE + slot * SORTED_SLOT_COLS,
{
    SORTED_BASE + slot * SORTED_SLOT_COLS
}

/// First column of the per-opcode arithmetic witness block, immediately after the
/// selectors.
pub fn witness_base() -> (r: usize)
    ensures
        r == SELECTOR_BASE + NUM_SELECTORS,
{
    SELECTOR_BASE + NUM_SELECTORS
}

/// Total number of main-trace columns: the control columns, the value bus, the
/// sorted log, the selectors, and the [`WITNESS_COLS`] arithmetic-witness columns.
pub fn main_width() -> (r: usize)
    ensures
        r == SELECTOR_BASE + NUM_SELECTORS + WITNESS_COLS,
{
    witness_base() + WITNESS_COLS
}

/// The column groups lie back to back without overlap: each value-bus slot ends
/// where the next begins, the last slot ends at the sorted log, the last sorted
/// entry ends at the selectors, and the witness block closes the row.
pub proof fn law_layout_is_contiguous(s: nat)
    requires
        s < BUS_SLOTS,
    ensures
        BUS_BASE + s * BUS_SLOT_COLS + BUS_SLOT_COLS == BUS_BASE + (s + 1) * BUS_SLOT_COLS,
        BUS_BASE + (s + 1) * BUS_SLOT_COLS <= SORTED_BASE,
        SORTED_BASE + (s + 1) * SORTED_SLOT_COLS <= SELECTOR_BASE,
        COL_IMM < BUS_BASE,
        SELECTOR_BASE + NUM_SELECTORS + WITNESS_COLS == 163,
{
}

} // verus!
