//! The popcount lookup's periodic table: the bit count of every byte.

use vstd::prelude::*;
use crate::executor::value::{count_ones, popcount};

verus! {

/// Entries of the popcount table: one per byte value.
pub const TABLE_SIZE: usize = 256;

/// The popcount table: row `v` holds the number of one bits of byte `v`;
/// rows past the table are zero.
pub fn table(length: usize) -> (r: Vec<u64>)
    ensures
        r@.len() == length,
        forall|row: int|
            0 <= row < length ==> #[trigger] r@[row] == (if row < TABLE_SIZE {
                popcount(row as nat, 32)
            } else {
                0
            }),
{
    let mut column: Vec<u64> = Vec::new();
    let mut row: usize = 0;
    while row < length
        invariant
            row <= length,
            column@.len() == row,
            forall|j: int|
                0 <= j < row ==> #[trigger] column@[j] == (if j < TABLE_SIZE {
                    popcount(j as nat, 32)
                } else {
                    0
                }),
        decreases length - row,
    {
        if row < TABLE_SIZE {
            column.push(count_ones(row as u64, 32));
        } else {
            column.push(0);
        }
        row = row + 1;
    }
    column
}

} // verus!
