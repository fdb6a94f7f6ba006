//! Column views over a trace row's value bus and sorted access log.

use vstd::prelude::*;
use crate::air::constraints::FIELD_ORDER;
use crate::air::matrix::{RowMajorMatrix, at, lemma_entry_canonical, matrix_fits, rows};
use crate::trace::layout::{BUS_BASE, BUS_SLOTS, BUS_SLOT_COLS, SELECTOR_BASE, SORTED_BASE, SORTED_SLOT_COLS, bus_slot, slot, sorted, sorted_slot};

verus! {

/// One value-bus slot's columns, read out of a trace row.
#[derive(Clone, Copy, Debug, PartialEq, Eq, Structural)]
pub struct BusSlot {
    /// Access address in the unified space.
    pub addr: u64,
    /// Low limb of the accessed value.
    pub lo: u64,
    /// High limb of the accessed value.
    pub hi: u64,
    /// One on a write access, zero on a read.
    pub is_write: u64,
    /// One when the slot carries a real access.
    pub active: u64,
}

/// One address-sorted log entry's columns, read out of a trace row.
#[derive(Clone, Copy, Debug, PartialEq, Eq, Structural)]
pub struct SortedEntry {
    /// Access address; entries are laid in non-decreasing address order.
    pub addr: u64,
    /// Timestamp the access carried on the value bus, `clk * BUS_SLOTS + slot`.
    pub ts: u64,
    /// Low limb of the accessed value.
    pub lo: u64,
    /// High limb of the accessed value.
    pub hi: u64,
    /// One on a write access, zero on a read.
    pub is_write: u64,
    /// One when the entry is real, zero when it pads the log's tail.
    pub active: u64,
    /// One when this entry continues the previous entry's address.
    pub same_addr: u64,
}

/// Value-bus slot `s` of row `r` of `m`.
pub open spec fn bus_slot_at(m: RowMajorMatrix, r: int, s: int) -> BusSlot {
    let b = BUS_BASE + s * BUS_SLOT_COLS;
    BusSlot {
        addr: at(m, r, b + slot::ADDR),
        lo: at(m, r, b + slot::LO),
        hi: at(m, r, b + slot::HI),
        is_write: at(m, r, b + slot::IS_WRITE),
        active: at(m, r, b + slot::ACTIVE),
    }
}

/// Sorted-log entry `e` of row `r` of `m`.
pub open spec fn sorted_entry_at(m: RowMajorMatrix, r: int, e: int) -> SortedEntry {
    let b = SORTED_BASE + e * SORTED_SLOT_COLS;
    SortedEntry {
        addr: at(m, r, b + sorted::ADDR),
        ts: at(m, r, b + sorted::TS),
        lo: at(m, r, b + sorted::LO),
        hi: at(m, r, b + sorted::HI),
        is_write: at(m, r, b + sorted::IS_WRITE),
        active: at(m, r, b + sorted::ACTIVE),
        same_addr: at(m, r, b + sorted::SAME_ADDR),
    }
}

impl BusSlot {
    /// Reads value-bus slot `index` of row `r`.
    pub fn read(m: &RowMajorMatrix, r: usize, index: usize) -> (v: Self)
        requires
            matrix_fits(*m, SELECTOR_BASE as int),
            r < rows(*m),
            index < BUS_SLOTS,
        ensures
            v == bus_slot_at(*m, r as int, index as int),
            v.addr < FIELD_ORDER && v.lo < FIELD_ORDER && v.hi < FIELD_ORDER && v.is_write < FIELD_ORDER,
    {
        let base = bus_slot(index);
        proof {
            lemma_entry_canonical(*m, SELECTOR_BASE as int, r as int, base + slot::ADDR);
            lemma_entry_canonical(*m, SELECTOR_BASE as int, r as int, base + slot::LO);
            lemma_entry_canonical(*m, SELECTOR_BASE as int, r as int, base + slot::HI);
            lemma_entry_canonical(*m, SELECTOR_BASE as int, r as int, base + slot::IS_WRITE);
        }
        BusSlot {
            addr: m.get(r, base + slot::ADDR),
            lo: m.get(r, base + slot::LO),
            hi: m.get(r, base + slot::HI),
            is_write: m.get(r, base + slot::IS_WRITE),
            active: m.get(r, base + slot::ACTIVE),
        }
    }
}

impl SortedEntry {
    /// Reads sorted-log entry `index` of row `r`.
    pub fn read(m: &RowMajorMatrix, r: usize, index: usize) -> (v: Self)
        requires
            matrix_fits(*m, SELECTOR_BASE as int),
            r < rows(*m),
            index < BUS_SLOTS,
        ensures
            v == sorted_entry_at(*m, r as int, index as int),
            v.addr < FIELD_ORDER && v.ts < FIELD_ORDER && v.lo < FIELD_ORDER && v.hi < FIELD_ORDER && v.is_write
                < FIELD_ORDER,
    {
        let base = sorted_slot(index);
        proof {
            lemma_entry_canonical(*m, SELECTOR_BASE as int, r as int, base + sorted::ADDR);
            lemma_entry_canonical(*m, SELECTOR_BASE as int, r as int, base + sorted::TS);
            lemma_entry_canonical(*m, SELECTOR_BASE as int, r as int, base + sorted::LO);
            lemma_entry_canonical(*m, SELECTOR_BASE as int, r as int, base + sorted::HI);
            lemma_entry_canonical(*m, SELECTOR_BASE as int, r as int, base + sorted::IS_WRITE);
        }
        SortedEntry {
            addr: m.get(r, base + sorted::ADDR),
            ts: m.get(r, base + sorted::TS),
            lo: m.get(r, base + sorted::LO),
            hi: m.get(r, base + sorted::HI),
            is_write: m.get(r, base + sorted::IS_WRITE),
            active: m.get(r, base + sorted::ACTIVE),
            same_addr: m.get(r, base + sorted::SAME_ADDR),
        }
    }
}

} // verus!
