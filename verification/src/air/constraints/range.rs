//! The range checks' periodic table: every byte value.

use vstd::prelude::*;
use crate::trace::layout::RANGE_TABLE_SIZE;

verus! {

/// Row `row` of the byte table: the byte value `row` below 256, zero beyond.
pub open spec fn byte_row(row: int) -> u64 {
    if 0 <= row < RANGE_TABLE_SIZE {
        row as u64
    } else {
        0
    }
}

/// The verifier-filled periodic column carrying the 8-bit byte table: row `i`
/// holds the byte value `i` for `i < 256`, and zero beyond, where the
/// multiplicity is zero. `length` is the padded trace height.
pub fn byte_table(length: usize) -> (r: Vec<u64>)
    ensures
        r@.len() == length,
        forall|row: int| 0 <= row < length ==> #[trigger] r@[row] == byte_row(row),
{
    let mut column: Vec<u64> = Vec::new();
    let mut row: usize = 0;
    while row < length
        invariant
            row <= length,
            column@.len() == row,
            forall|j: int| 0 <= j < row ==> #[trigger] column@[j] == byte_row(j),
        decreases length - row,
    {
        if row < RANGE_TABLE_SIZE {
            column.push(row as u64);
        } else {
            column.push(0);
        }
        row = row + 1;
    }
    column
}

} // verus!
