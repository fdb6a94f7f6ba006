//! The periodic columns the AIR's lookups read. Each is a table the verifier
//! fills from the public program alone, padded to the trace length.
//!
//! A Goldilocks field element is carried by its canonical `u64` value, the
//! residue modulo [`FIELD_ORDER`].

pub mod address;
pub mod bitwise;
pub mod boundary;
pub mod control;
pub mod logup;
pub mod movement;
pub mod numeric;
pub mod permutation;
pub mod popcount;
pub mod range;

use vstd::prelude::*;
use crate::air::constraints::bitwise::{and_row, and_table};
use crate::air::constraints::boundary::{boundary_row, periodic_columns};
use crate::air::constraints::control::{data_periodic, data_row};
use crate::air::constraints::logup::{periodic_table, rom_row};
use crate::air::constraints::popcount::{TABLE_SIZE, table};
use crate::air::constraints::range::{byte_row, byte_table};
use crate::executor::value::popcount;
use crate::trace::layout::{SELECTOR_BASE, WITNESS_COLS, main_width};
use crate::trace::selector::NUM_SELECTORS;

verus! {

/// The order of the Goldilocks field, `2^64 - 2^32 + 1`.
pub const FIELD_ORDER: u64 = 0xFFFF_FFFF_0000_0001;

/// The canonical value of the field element an integer `v` denotes.
pub open spec fn canonical(v: u64) -> u64 {
    (v % FIELD_ORDER) as u64
}

/// The number of periodic columns the AIR reads.
pub const PERIODIC_COLUMNS: usize = 12;

/// The twelve periodic values at row `row`: the ROM, the byte table, the
/// boundary's `(addr, lo, hi)`, the AND table's `(a, b, a & b)`, the popcount
/// table, and the data ROM's `(pc, a, b)`.
pub open spec fn periodic_row(
    rom: Seq<u64>,
    data: Seq<(u32, u32, u32)>,
    initial: Seq<(u64, u64, u64)>,
    row: int,
) -> Seq<u64> {
    let bd = boundary_row(initial, row);
    let and = and_row(row as u64);
    let dt = data_row(data, row);
    seq![
        rom_row(rom, row),
        byte_row(row),
        bd.0,
        bd.1,
        bd.2,
        and.0,
        and.1,
        and.2,
        if row < TABLE_SIZE { popcount(row as nat, 32) as u64 } else { 0 },
        dt.0,
        dt.1,
        dt.2,
    ]
}

/// The AIR of an Ananse trace: the periodic tables it reads, each padded to
/// the trace length, and the base of the operand-stack region.
pub struct AnanseAir {
    rom_periodic: Vec<u64>,
    byte_table: Vec<u64>,
    boundary: [Vec<u64>; 3],
    and_table: [Vec<u64>; 3],
    popcount_table: Vec<u64>,
    data_table: [Vec<u64>; 3],
    stack_base: u64,
}

impl AnanseAir {
    /// Periodic column `k`, in the order the AIR reads them.
    pub closed spec fn column(&self, k: int) -> Seq<u64> {
        if k == 0 {
            self.rom_periodic@
        } else if k == 1 {
            self.byte_table@
        } else if 2 <= k < 5 {
            self.boundary[k - 2]@
        } else if 5 <= k < 8 {
            self.and_table[k - 5]@
        } else if k == 8 {
            self.popcount_table@
        } else {
            self.data_table[k - 9]@
        }
    }

    /// The trace length the tables are padded to.
    pub closed spec fn length(&self) -> nat {
        self.rom_periodic@.len()
    }

    /// The twelve periodic values at row `row`.
    pub open spec fn values_at(&self, row: int) -> Seq<u64> {
        Seq::new(PERIODIC_COLUMNS as nat, |k: int| self.column(k)[row])
    }

    /// The stack region's base the address constraints use.
    pub closed spec fn stack_base_view(&self) -> u64 {
        self.stack_base
    }

    /// Every table holds one entry per trace row.
    #[verifier::type_invariant]
    spec fn tables_fill_the_trace(&self) -> bool {
        forall|k: int| 0 <= k < PERIODIC_COLUMNS ==> #[trigger] self.column(k).len() == self.length()
    }

    /// Fills every periodic table from the public program: the control-flow
    /// ROM, the byte table, the boundary's initial-state table, the AND table,
    /// the popcount table and the data ROM, each padded to `trace_len`.
    pub fn new(
        rom: &[u64],
        data: &[(u32, u32, u32)],
        trace_len: usize,
        stack_base: u32,
        initial: &[(u64, u64, u64)],
    ) -> (air: Self)
        ensures
            air.length() == trace_len,
            air.stack_base_view() == stack_base,
            forall|row: int| 0 <= row < trace_len ==> #[trigger] air.values_at(row) == periodic_row(rom@, data@, initial@, row),
    {
        let air = AnanseAir {
            rom_periodic: periodic_table(rom, trace_len),
            byte_table: byte_table(trace_len),
            boundary: periodic_columns(initial, trace_len),
            and_table: and_table(trace_len),
            popcount_table: table(trace_len),
            data_table: data_periodic(data, trace_len),
            stack_base: stack_base as u64,
        };
        assert forall|row: int| 0 <= row < trace_len implies #[trigger] air.values_at(row) == periodic_row(
            rom@,
            data@,
            initial@,
            row,
        ) by {
            let bd = boundary_row(initial@, row);
            let and = and_row(row as u64);
            let dt = data_row(data@, row);
            assert(air.rom_periodic@[row] == rom_row(rom@, row));
            assert(air.byte_table@[row] == byte_row(row));
            assert((air.boundary[0]@[row], air.boundary[1]@[row], air.boundary[2]@[row]) == bd);
            assert((air.and_table[0]@[row], air.and_table[1]@[row], air.and_table[2]@[row]) == and);
            assert(air.popcount_table@[row] == (if row < TABLE_SIZE { popcount(row as nat, 32) } else { 0 }));
            assert((air.data_table[0]@[row], air.data_table[1]@[row], air.data_table[2]@[row]) == dt);
            assert(air.values_at(row) =~= periodic_row(rom@, data@, initial@, row));
        }
        air
    }

    /// The main trace's width.
    pub fn width(&self) -> (r: usize)
        ensures
            r == SELECTOR_BASE + NUM_SELECTORS + WITNESS_COLS,
    {
        main_width()
    }

    /// The number of periodic columns.
    pub fn num_periodic_columns(&self) -> (r: usize)
        ensures
            r == PERIODIC_COLUMNS,
    {
        PERIODIC_COLUMNS
    }

    /// Every periodic column, in the order the AIR reads them.
    pub fn periodic_columns(&self) -> (r: Vec<Vec<u64>>)
        ensures
            r@.len() == PERIODIC_COLUMNS,
            forall|k: int| 0 <= k < PERIODIC_COLUMNS ==> (#[trigger] r@[k])@ == self.column(k),
    {
        let mut r: Vec<Vec<u64>> = Vec::new();
        r.push(self.rom_periodic.clone());
        r.push(self.byte_table.clone());
        r.push(self.boundary[0].clone());
        r.push(self.boundary[1].clone());
        r.push(self.boundary[2].clone());
        r.push(self.and_table[0].clone());
        r.push(self.and_table[1].clone());
        r.push(self.and_table[2].clone());
        r.push(self.popcount_table.clone());
        r.push(self.data_table[0].clone());
        r.push(self.data_table[1].clone());
        r.push(self.data_table[2].clone());
        r
    }

    /// The periodic values at row `row_index`, each table read cyclically.
    pub fn periodic_values(&self, row_index: usize) -> (r: Vec<u64>)
        requires
            self.length() > 0,
        ensures
            r@ == self.values_at(row_index as int % self.length() as int),
    {
        proof {
            use_type_invariant(self);
            assert(self.column(1).len() == self.length());
            assert(self.column(2).len() == self.length());
            assert(self.column(3).len() == self.length());
            assert(self.column(4).len() == self.length());
            assert(self.column(5).len() == self.length());
            assert(self.column(6).len() == self.length());
            assert(self.column(7).len() == self.length());
            assert(self.column(8).len() == self.length());
            assert(self.column(9).len() == self.length());
            assert(self.column(10).len() == self.length());
            assert(self.column(11).len() == self.length());
        }
        let i = row_index % self.rom_periodic.len();
        let mut r: Vec<u64> = Vec::new();
        r.push(self.rom_periodic[i]);
        r.push(self.byte_table[i]);
        r.push(self.boundary[0][i]);
        r.push(self.boundary[1][i]);
        r.push(self.boundary[2][i]);
        r.push(self.and_table[0][i]);
        r.push(self.and_table[1][i]);
        r.push(self.and_table[2][i]);
        r.push(self.popcount_table[i]);
        r.push(self.data_table[0][i]);
        r.push(self.data_table[1][i]);
        r.push(self.data_table[2][i]);
        assert(r@ =~= self.values_at(i as int));
        r
    }
}

} // verus!
