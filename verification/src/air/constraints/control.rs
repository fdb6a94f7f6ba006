//! The data-ROM lookup's periodic table: the constant or branch data each bound
//! program point carries.

use vstd::prelude::*;

verus! {

/// Row `row` of the data-ROM columns: entry `row`'s `(pc, a, b)`, zero past the
/// data.
pub open spec fn data_row(data: Seq<(u32, u32, u32)>, row: int) -> (u64, u64, u64) {
    if row < data.len() {
        (data[row].0 as u64, data[row].1 as u64, data[row].2 as u64)
    } else {
        (0, 0, 0)
    }
}

/// The data-ROM's three periodic columns `(pc, a, b)`, one entry per bound
/// program point at rows `0..data.len()`, zero-padded to `length`.
pub fn data_periodic(data: &[(u32, u32, u32)], length: usize) -> (r: [Vec<u64>; 3])
    ensures
        r[0]@.len() == length && r[1]@.len() == length && r[2]@.len() == length,
        forall|row: int|
            0 <= row < length ==> (#[trigger] r[0]@[row], r[1]@[row], r[2]@[row]) == data_row(data@, row),
{
    let mut pcs: Vec<u64> = Vec::new();
    let mut a: Vec<u64> = Vec::new();
    let mut b: Vec<u64> = Vec::new();
    let mut row: usize = 0;
    while row < length
        invariant
            row <= length,
            pcs@.len() == row && a@.len() == row && b@.len() == row,
            forall|j: int| 0 <= j < row ==> (#[trigger] pcs@[j], a@[j], b@[j]) == data_row(data@, j),
        decreases length - row,
    {
        if row < data.len() {
            let (pc, x, y) = data[row];
            pcs.push(pc as u64);
            a.push(x as u64);
            b.push(y as u64);
        } else {
            pcs.push(0);
            a.push(0);
            b.push(0);
        }
        row = row + 1;
    }
    [pcs, a, b]
}

} // verus!
