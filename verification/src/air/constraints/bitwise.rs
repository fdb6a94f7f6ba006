//! The bitwise lookup's periodic table: every pair of nibbles with their AND.

use vstd::prelude::*;

verus! {

/// Entries of the nibble AND-table: one per pair of 4-bit operands.
pub const AND_TABLE_SIZE: usize = 256;

/// Row `v` of the AND-table: the high nibble `a`, the low nibble `b`, and
/// `a & b`; rows past the table are zero.
pub open spec fn and_row(v: u64) -> (u64, u64, u64) {
    if v < AND_TABLE_SIZE {
        (v / 16, v % 16, (v / 16) & (v % 16))
    } else {
        (0, 0, 0)
    }
}

/// The AND-table's three periodic columns `(a, b, a & b)`: row `16 * a + b`
/// pairs nibbles `a` and `b`, zero-padded to `length`.
pub fn and_table(length: usize) -> (r: [Vec<u64>; 3])
    ensures
        r[0]@.len() == length && r[1]@.len() == length && r[2]@.len() == length,
        forall|row: int|
            0 <= row < length ==> (#[trigger] r[0]@[row], r[1]@[row], r[2]@[row]) == and_row(row as u64),
{
    let mut a: Vec<u64> = Vec::new();
    let mut b: Vec<u64> = Vec::new();
    let mut p: Vec<u64> = Vec::new();
    let mut row: usize = 0;
    while row < length
        invariant
            row <= length,
            a@.len() == row && b@.len() == row && p@.len() == row,
            forall|j: int| 0 <= j < row ==> (#[trigger] a@[j], b@[j], p@[j]) == and_row(j as u64),
        decreases length - row,
    {
        if row < AND_TABLE_SIZE {
            let v = row as u64;
            assert(v >> 4 == v / 16 && v & 0xf == v % 16 && (v >> 4) & v & 0xf == (v / 16) & (v % 16)) by (bit_vector);
            a.push(v >> 4);
            b.push(v & 0xf);
            p.push((v >> 4) & v & 0xf);
        } else {
            a.push(0);
            b.push(0);
            p.push(0);
        }
        row = row + 1;
    }
    [a, b, p]
}

} // verus!
