//! The main trace as the AIR reads it: a row-major matrix of field elements.

use vstd::prelude::*;
use vstd::arithmetic::div_mod::{lemma_fundamental_div_mod, lemma_mod_bound};
use crate::air::constraints::FIELD_ORDER;

verus! {

/// A row-major matrix of field elements in canonical form: row `r` occupies
/// `values[r * width .. (r + 1) * width]`.
#[derive(Clone, Debug, PartialEq, Eq)]
pub struct RowMajorMatrix {
    /// The entries, row after row.
    pub values: Vec<u64>,
    /// The number of columns.
    pub width: usize,
}

/// The number of whole rows of `m`; zero for a matrix without columns.
pub open spec fn rows(m: RowMajorMatrix) -> int {
    if m.width == 0 {
        0
    } else {
        m.values@.len() as int / (m.width as int)
    }
}

/// The entry of `m` at row `r`, column `c`.
pub open spec fn at(m: RowMajorMatrix, r: int, c: int) -> u64 {
    m.values@[r * m.width + c]
}

/// Whether `m` holds whole rows, at least `columns` wide, of canonical field
/// elements.
pub open spec fn matrix_fits(m: RowMajorMatrix, columns: int) -> bool {
    &&& m.width > 0
    &&& m.width >= columns
    &&& m.values@.len() as int % (m.width as int) == 0
    &&& forall|i: int| 0 <= i < m.values@.len() ==> #[trigger] m.values@[i] < FIELD_ORDER
}

/// A cell of a row inside the matrix lies inside its entries.
pub proof fn lemma_cell_in_bounds(len: int, w: int, r: int, c: int)
    requires
        w > 0,
        len >= 0,
        0 <= r < len / w,
        0 <= c < w,
    ensures
        0 <= r * w + c < len,
{
    lemma_fundamental_div_mod(len, w);
    lemma_mod_bound(len, w);
    assert(0 <= r * w + c < len) by (nonlinear_arith)
        requires
            w > 0,
            len >= 0,
            0 <= r < len / w,
            0 <= c < w,
            len == w * (len / w) + len % w,
            len % w >= 0,
    {
        assert(r * w + c < (r + 1) * w);
        assert((r + 1) * w <= (len / w) * w);
    }
}

/// Every entry of a matrix of canonical field elements is canonical.
pub proof fn lemma_entry_canonical(m: RowMajorMatrix, columns: int, r: int, c: int)
    requires
        matrix_fits(m, columns),
        0 <= r < rows(m),
        0 <= c < m.width,
    ensures
        at(m, r, c) < FIELD_ORDER,
{
    lemma_cell_in_bounds(m.values@.len() as int, m.width as int, r, c);
}

impl RowMajorMatrix {
    /// The number of rows.
    pub fn height(&self) -> (r: usize)
        ensures
            r == rows(*self),
    {
        if self.width == 0 {
            0
        } else {
            self.values.len() / self.width
        }
    }

    /// The entry at row `r`, column `c`.
    pub fn get(&self, r: usize, c: usize) -> (v: u64)
        requires
            self.width > 0,
            r < rows(*self),
            c < self.width,
        ensures
            v == at(*self, r as int, c as int),
    {
        proof {
            lemma_cell_in_bounds(self.values@.len() as int, self.width as int, r as int, c as int);
        }
        let n = self.values.len();
        assert(r * self.width + c < n);
        let base = r * self.width;
        self.values[base + c]
    }
}

} // verus!
