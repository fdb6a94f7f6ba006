//! The boundary lookup's periodic table: the register file's initial values.

use vstd::prelude::*;
use vstd::arithmetic::div_mod::{
    lemma_add_mod_noop, lemma_fundamental_div_mod, lemma_mod_bound, lemma_mod_twice, lemma_mul_mod_noop_left,
    lemma_small_mod,
};
use crate::air::bus::{SortedEntry, sorted_entry_at};
use crate::air::constraints::{FIELD_ORDER, canonical};
use crate::air::constraints::logup::coord;
use crate::air::constraints::permutation::{inverse_spec, reciprocal, reciprocal_spec};
use crate::air::error::AirError;
use crate::air::field::{
    Ext, ext_add, ext_add_spec, ext_canonical, ext_from, ext_mul, ext_mul_spec, ext_of, ext_sub_spec, ext_zero, felt_new, order,
};
use crate::air::matrix::{RowMajorMatrix, lemma_entry_canonical, matrix_fits, rows};
use crate::trace::layout::{BUS_SLOTS, SELECTOR_BASE, SORTED_BASE, SORTED_SLOT_COLS, sorted};

use crate::cli::text::{append, append_decimal, decimal, string_of};

verus! {

/// Row `row` of the boundary columns: entry `row`'s address as a field element
/// and its two limbs, zero past the table.
pub open spec fn boundary_row(table: Seq<(u64, u64, u64)>, row: int) -> (u64, u64, u64) {
    if row < table.len() {
        (canonical(table[row].0), table[row].1, table[row].2)
    } else {
        (0, 0, 0)
    }
}

/// The boundary lookup's three periodic columns `(addr, lo, hi)`: initial
/// register-file entry `i` on row `i`, zero-padded to `length`.
pub fn periodic_columns(table: &[(u64, u64, u64)], length: usize) -> (r: [Vec<u64>; 3])
    ensures
        r[0]@.len() == length && r[1]@.len() == length && r[2]@.len() == length,
        forall|row: int|
            0 <= row < length ==> (#[trigger] r[0]@[row], r[1]@[row], r[2]@[row]) == boundary_row(table@, row),
{
    let mut addrs: Vec<u64> = Vec::new();
    let mut los: Vec<u64> = Vec::new();
    let mut his: Vec<u64> = Vec::new();
    let mut row: usize = 0;
    while row < length
        invariant
            row <= length,
            addrs@.len() == row && los@.len() == row && his@.len() == row,
            forall|j: int| 0 <= j < row ==> (#[trigger] addrs@[j], los@[j], his@[j]) == boundary_row(table@, j),
        decreases length - row,
    {
        if row < table.len() {
            let (addr, lo, hi) = table[row];
            addrs.push(addr % FIELD_ORDER);
            los.push(lo);
            his.push(hi);
        } else {
            addrs.push(0);
            los.push(0);
            his.push(0);
        }
        row = row + 1;
    }
    [addrs, los, his]
}

/// Whether a sorted-log entry is a fresh read: an active read that opens its
/// address.
pub open spec fn is_fresh_read(e: SortedEntry) -> bool {
    e.active == 1 && e.same_addr == 0 && e.is_write == 0
}

/// Whether sorted-log entry `k` of row `r` is a fresh read.
pub open spec fn fresh_at(m: RowMajorMatrix, r: int, k: int) -> bool {
    is_fresh_read(sorted_entry_at(m, r, k))
}

/// The `(addr, lo, hi)` key an entry looks up.
pub open spec fn entry_key(e: SortedEntry) -> (u64, u64, u64) {
    (e.addr, e.lo, e.hi)
}

/// `addr + fold * lo + fold * fold * hi`.
pub open spec fn boundary_fold(fold: Ext, addr: u64, lo: u64, hi: u64) -> Ext {
    ext_add_spec(
        ext_add_spec(ext_of(addr), ext_mul_spec(fold, ext_of(lo))),
        ext_mul_spec(ext_mul_spec(fold, fold), ext_of(hi)),
    )
}

/// The position of the last table entry equal to `key`, if any.
pub open spec fn table_position(table: Seq<(u64, u64, u64)>, key: (u64, u64, u64)) -> Option<int>
    decreases table.len(),
{
    if table.len() == 0 {
        None
    } else if table.last() == key {
        Some(table.len() - 1)
    } else {
        table_position(table.drop_last(), key)
    }
}

/// Whether entry `k` of row `r` is a fresh read whose key the table lacks.
pub open spec fn unknown_read(m: RowMajorMatrix, table: Seq<(u64, u64, u64)>, r: int, k: int) -> bool {
    fresh_at(m, r, k) && table_position(table, entry_key(sorted_entry_at(m, r, k))) is None
}

/// Whether every fresh read of a summed row is in the table.
pub open spec fn reads_in_table(m: RowMajorMatrix, table: Seq<(u64, u64, u64)>) -> bool {
    forall|r: int, k: int| 0 <= r < rows(m) - 1 && 0 <= k < BUS_SLOTS ==> !#[trigger] unknown_read(m, table, r, k)
}

/// The first fresh read, in row then entry order, whose key the table lacks.
pub open spec fn first_unknown_read(m: RowMajorMatrix, table: Seq<(u64, u64, u64)>) -> (int, int) {
    choose|r: int, k: int|
        0 <= r < rows(m) - 1 && 0 <= k < BUS_SLOTS && #[trigger] unknown_read(m, table, r, k) && forall|r2: int, k2: int|
            0 <= r2 && 0 <= k2 < BUS_SLOTS && (r2 < r || (r2 == r && k2 < k)) ==> !#[trigger] unknown_read(m, table, r2, k2)
}

/// How many of the first `k` entries of row `r` are fresh reads of table entry `p`.
pub open spec fn row_hits(m: RowMajorMatrix, table: Seq<(u64, u64, u64)>, p: int, r: int, k: int) -> nat
    decreases k,
{
    if k <= 0 {
        0
    } else {
        row_hits(m, table, p, r, k - 1) + if fresh_at(m, r, k - 1) && table_position(
            table,
            entry_key(sorted_entry_at(m, r, k - 1)),
        ) == Some(p) {
            1nat
        } else {
            0nat
        }
    }
}

/// How many fresh reads of the first `n` rows read table entry `p`.
pub open spec fn hits(m: RowMajorMatrix, table: Seq<(u64, u64, u64)>, p: int, n: int) -> nat
    decreases n,
{
    if n <= 0 {
        0
    } else {
        hits(m, table, p, n - 1) + row_hits(m, table, p, n - 1, BUS_SLOTS as int)
    }
}

/// The multiplicity column's row `i`: table entry `i`'s fresh-read count.
pub open spec fn boundary_multiplicity(m: RowMajorMatrix, table: Seq<(u64, u64, u64)>, i: int) -> Ext {
    if i < table.len() {
        ext_of((hits(m, table, i, rows(m) - 1) % (FIELD_ORDER as nat)) as u64)
    } else {
        ext_zero()
    }
}

/// Table entry `i`, or zeros past the table.
pub open spec fn table_entry_at(table: Seq<(u64, u64, u64)>, i: int) -> (u64, u64, u64) {
    if 0 <= i < table.len() {
        table[i]
    } else {
        (0, 0, 0)
    }
}

/// The table side's step out of row `i`: `m_i / (denom - fold(entry_i))`, zero
/// when the multiplicity is; `None` when a needed denominator vanishes.
#[verifier::opaque]
pub open spec fn table_step(m: RowMajorMatrix, table: Seq<(u64, u64, u64)>, fold: Ext, denom: Ext, i: int) -> Option<Ext> {
    let mult = boundary_multiplicity(m, table, i);
    if mult == ext_zero() {
        Some(ext_zero())
    } else {
        let e = table_entry_at(table, i);
        match reciprocal_spec(denom, boundary_fold(fold, (e.0 % FIELD_ORDER) as u64, e.1, e.2)) {
            None => None,
            Some(x) => Some(ext_mul_spec(mult, x)),
        }
    }
}

/// The table-side running sum at row `n`.
pub open spec fn table_sum_at(m: RowMajorMatrix, table: Seq<(u64, u64, u64)>, fold: Ext, denom: Ext, n: int) -> Option<Ext>
    decreases n,
{
    if n <= 0 {
        Some(ext_zero())
    } else {
        match table_sum_at(m, table, fold, denom, n - 1) {
            None => None,
            Some(prev) => match table_step(m, table, fold, denom, n - 1) {
                None => None,
                Some(x) => Some(ext_add_spec(prev, x)),
            },
        }
    }
}

/// Channel `k`'s step out of row `i`: `1 / (denom - fold(entry))` for a fresh
/// read, else zero; `None` when the denominator vanishes.
#[verifier::opaque]
pub open spec fn channel_step(m: RowMajorMatrix, fold: Ext, denom: Ext, i: int, k: int) -> Option<Ext> {
    let e = sorted_entry_at(m, i, k);
    if is_fresh_read(e) {
        reciprocal_spec(denom, boundary_fold(fold, e.addr, e.lo, e.hi))
    } else {
        Some(ext_zero())
    }
}

/// Channel `k`'s running sum at row `n`.
pub open spec fn channel_at(m: RowMajorMatrix, fold: Ext, denom: Ext, k: int, n: int) -> Option<Ext>
    decreases n,
{
    if n <= 0 {
        Some(ext_zero())
    } else {
        match channel_at(m, fold, denom, k, n - 1) {
            None => None,
            Some(prev) => match channel_step(m, fold, denom, n - 1, k) {
                None => None,
                Some(x) => Some(ext_add_spec(prev, x)),
            },
        }
    }
}

/// Whether every running sum of the boundary lookup is defined up to row `n`.
pub open spec fn sums_defined(m: RowMajorMatrix, table: Seq<(u64, u64, u64)>, fold: Ext, denom: Ext, n: int) -> bool {
    &&& table_sum_at(m, table, fold, denom, n) is Some
    &&& forall|k: int| 0 <= k < BUS_SLOTS ==> #[trigger] channel_at(m, fold, denom, k, n) is Some
}

/// `addr + fold * lo + fold * fold * hi`.
fn fold_triple(fold: Ext, addr: u64, lo: u64, hi: u64) -> (r: Ext)
    requires
        ext_canonical(fold),
        addr < FIELD_ORDER && lo < FIELD_ORDER && hi < FIELD_ORDER,
    ensures
        r == boundary_fold(fold, addr, lo, hi),
        ext_canonical(r),
{
    ext_add(ext_add(ext_from(addr), ext_mul(fold, ext_from(lo))), ext_mul(ext_mul(fold, fold), ext_from(hi)))
}

/// The position of the last table entry equal to `key`, if any.
fn table_index(table: &[(u64, u64, u64)], key: (u64, u64, u64)) -> (r: Option<usize>)
    ensures
        r matches Some(p) ==> table_position(table@, key) == Some(p as int) && p < table@.len(),
        r is None ==> table_position(table@, key) is None,
{
    let mut n: usize = table.len();
    assert(table@.subrange(0, n as int) =~= table@);
    while n > 0
        invariant
            n <= table@.len(),
            table_position(table@, key) == table_position(table@.subrange(0, n as int), key),
        decreases n,
    {
        assert(table@.subrange(0, n as int).drop_last() =~= table@.subrange(0, n - 1));
        let (a, l, h) = table[n - 1];
        if a == key.0 && l == key.1 && h == key.2 {
            return Some(n - 1);
        }
        n = n - 1;
    }
    None
}

/// The complaint that the fresh read at `row`, `entry` is missing from the
/// initial-state table: `"fresh read at row {row} entry {entry} is absent
/// from the initial-state table"`.
pub open spec fn missing_read_text(row: usize, entry: usize) -> Seq<char> {
    "fresh read at row "@ + decimal(row as nat) + " entry "@ + decimal(entry as nat) + " is absent from the initial-state table"@
}

/// Renders [`missing_read_text`].
fn missing_read_message(row: usize, entry: usize) -> (r: String)
    ensures
        r@ == missing_read_text(row, entry),
{
    let mut out: Vec<char> = Vec::new();
    append(&mut out, "fresh read at row ");
    append_decimal(&mut out, row as u64);
    append(&mut out, " entry ");
    append_decimal(&mut out, entry as u64);
    append(&mut out, " is absent from the initial-state table");
    assert(out@ =~= missing_read_text(row, entry));
    string_of(out)
}

/// Row hits count at most the entries seen.
proof fn lemma_row_hits_bound(m: RowMajorMatrix, table: Seq<(u64, u64, u64)>, p: int, r: int, k: int)
    requires
        k >= 0,
    ensures
        row_hits(m, table, p, r, k) <= k,
    decreases k,
{
    if k > 0 {
        lemma_row_hits_bound(m, table, p, r, k - 1);
    }
}

/// Hits count at most `BUS_SLOTS` per row.
proof fn lemma_hits_bound(m: RowMajorMatrix, table: Seq<(u64, u64, u64)>, p: int, n: int)
    requires
        n >= 0,
    ensures
        hits(m, table, p, n) <= n * BUS_SLOTS,
    decreases n,
{
    if n > 0 {
        lemma_hits_bound(m, table, p, n - 1);
        lemma_row_hits_bound(m, table, p, n - 1, BUS_SLOTS as int);
    }
}

/// Counts, per table entry, the fresh reads of the summed rows that read it,
/// or names the first fresh read the table lacks.
fn count_fresh_reads(m: &RowMajorMatrix, table: &[(u64, u64, u64)], summed: usize) -> (res: Result<Vec<u64>, AirError>)
    requires
        matrix_fits(*m, SELECTOR_BASE as int),
        summed == (if rows(*m) > 0 { rows(*m) - 1 } else { 0 }),
    ensures
        !reads_in_table(*m, table@) ==> (res matches Err(AirError::LookupBuild(msg)) && msg@ == missing_read_text(
            first_unknown_read(*m, table@).0 as usize,
            first_unknown_read(*m, table@).1 as usize,
        )),
        reads_in_table(*m, table@) ==> (res matches Ok(counts) && counts@.len() == table@.len() && forall|p: int|
            0 <= p < table@.len() ==> #[trigger] counts@[p] == hits(*m, table@, p, summed as int)),
{
    let total = m.values.len();
    proof {
        lemma_fundamental_div_mod(total as int, m.width as int);
        lemma_mod_bound(total as int, m.width as int);
        let h = rows(*m);
        assert(h * m.width <= total) by (nonlinear_arith)
            requires
                m.width > 0,
                total == m.width * (total as int / m.width as int) + total as int % m.width as int,
                total as int % m.width as int >= 0,
                h == total as int / m.width as int,
        ;
        assert(h * BUS_SLOTS <= h * m.width) by (nonlinear_arith)
            requires
                m.width >= BUS_SLOTS,
                h >= 0,
        ;
    }
    let mut counts: Vec<u64> = Vec::new();
    let mut q: usize = 0;
    while q < table.len()
        invariant
            q <= table@.len(),
            counts@.len() == q,
            forall|p: int| 0 <= p < q ==> #[trigger] counts@[p] == 0,
        decreases table.len() - q,
    {
        counts.push(0);
        q = q + 1;
    }
    let mut r: usize = 0;
    while r < summed
        invariant
            matrix_fits(*m, SELECTOR_BASE as int),
            summed == (if rows(*m) > 0 { rows(*m) - 1 } else { 0 }),
            rows(*m) * BUS_SLOTS <= total,
            r <= summed,
            counts@.len() == table@.len(),
            forall|p: int| 0 <= p < table@.len() ==> #[trigger] counts@[p] == hits(*m, table@, p, r as int),
            forall|r2: int, k2: int| 0 <= r2 < r && 0 <= k2 < BUS_SLOTS ==> !#[trigger] unknown_read(*m, table@, r2, k2),
        decreases summed - r,
    {
        let mut k: usize = 0;
        while k < BUS_SLOTS
            invariant
                matrix_fits(*m, SELECTOR_BASE as int),
                summed == (if rows(*m) > 0 { rows(*m) - 1 } else { 0 }),
                rows(*m) * BUS_SLOTS <= total,
                r < summed,
                k <= BUS_SLOTS,
                counts@.len() == table@.len(),
                forall|p: int|
                    0 <= p < table@.len() ==> #[trigger] counts@[p] == hits(*m, table@, p, r as int) + row_hits(
                        *m,
                        table@,
                        p,
                        r as int,
                        k as int,
                    ),
                forall|r2: int, k2: int|
                    0 <= r2 && 0 <= k2 < BUS_SLOTS && (r2 < r || (r2 == r && k2 < k)) ==> !#[trigger] unknown_read(
                        *m,
                        table@,
                        r2,
                        k2,
                    ),
            decreases BUS_SLOTS - k,
        {
            let entry = SortedEntry::read(m, r, k);
            if entry.active == 1 && entry.same_addr == 0 && entry.is_write == 0 {
                match table_index(table, (entry.addr, entry.lo, entry.hi)) {
                    Some(pos) => {
                        let ghost old_counts = counts@;
                        proof {
                            lemma_hits_bound(*m, table@, pos as int, r as int);
                            lemma_row_hits_bound(*m, table@, pos as int, r as int, k as int);
                            assert(old_counts[pos as int] <= r * BUS_SLOTS + k);
                        }
                        let bumped = counts[pos] + 1;
                        counts.set(pos, bumped);
                        assert forall|p: int| 0 <= p < table@.len() implies #[trigger] counts@[p] == hits(
                            *m,
                            table@,
                            p,
                            r as int,
                        ) + row_hits(*m, table@, p, r as int, k + 1) by {
                            assert(counts@[p] as int == if p == pos { old_counts[p] + 1 } else { old_counts[p] as int });
                        }
                    },
                    None => {
                        proof {
                            let (rc, kc) = first_unknown_read(*m, table@);
                            assert(unknown_read(*m, table@, r as int, k as int));
                            if rc < r || (rc == r && kc < k) {
                                assert(!unknown_read(*m, table@, rc, kc));
                            } else if rc != r || kc != k {
                                assert(!unknown_read(*m, table@, r as int, k as int));
                            }
                        }
                        return Err(AirError::LookupBuild(missing_read_message(r, k)));
                    },
                }
            }
            k = k + 1;
        }
        r = r + 1;
    }
    Ok(counts)
}

/// The multiplicity column: table entry `i`'s fresh-read count on row `i`,
/// zero past the table.
fn multiplicity_column(m: &RowMajorMatrix, table: &[(u64, u64, u64)], counts: &Vec<u64>, height: usize, summed: usize) -> (r: Vec<Ext>)
    requires
        height == rows(*m),
        summed == (if height > 0 { height - 1 } else { 0 }),
        counts@.len() == table@.len(),
        forall|p: int| 0 <= p < table@.len() ==> #[trigger] counts@[p] == hits(*m, table@, p, summed as int),
    ensures
        r@.len() == height,
        forall|i: int| 0 <= i < height ==> #[trigger] r@[i] == boundary_multiplicity(*m, table@, i),
        forall|i: int| 0 <= i < height ==> ext_canonical(#[trigger] r@[i]),
{
    let mut out: Vec<Ext> = Vec::new();
    let mut i: usize = 0;
    while i < height
        invariant
            height == rows(*m),
            summed == (if height > 0 { height - 1 } else { 0 }),
            counts@.len() == table@.len(),
            forall|p: int| 0 <= p < table@.len() ==> #[trigger] counts@[p] == hits(*m, table@, p, summed as int),
            i <= height,
            out@.len() == i,
            forall|j: int| 0 <= j < i ==> #[trigger] out@[j] == boundary_multiplicity(*m, table@, j),
            forall|j: int| 0 <= j < i ==> ext_canonical(#[trigger] out@[j]),
        decreases height - i,
    {
        if i < table.len() {
            out.push(ext_from(felt_new(counts[i])));
        } else {
            out.push(Ext { c0: 0, c1: 0 });
        }
        i = i + 1;
    }
    out
}

/// Once the table side is undefined at a row, it stays undefined.
proof fn lemma_table_sum_none_persists(m: RowMajorMatrix, table: Seq<(u64, u64, u64)>, fold: Ext, denom: Ext, j: int, n: int)
    requires
        0 <= j <= n,
        table_sum_at(m, table, fold, denom, j) is None,
    ensures
        table_sum_at(m, table, fold, denom, n) is None,
    decreases n - j,
{
    if n > j {
        lemma_table_sum_none_persists(m, table, fold, denom, j, n - 1);
    }
}

/// Once a channel is undefined at a row, it stays undefined.
proof fn lemma_channel_none_persists(m: RowMajorMatrix, fold: Ext, denom: Ext, k: int, j: int, n: int)
    requires
        0 <= j <= n,
        channel_at(m, fold, denom, k, j) is None,
    ensures
        channel_at(m, fold, denom, k, n) is None,
    decreases n - j,
{
    if n > j {
        lemma_channel_none_persists(m, fold, denom, k, j, n - 1);
    }
}

/// Whether the inputs of the boundary lookup fit: the matrix holds the sorted
/// log in canonical form, the table's limbs are canonical, and the challenges
/// are canonical.
pub open spec fn boundary_inputs(m: RowMajorMatrix, table: Seq<(u64, u64, u64)>, fold: Ext, denom: Ext) -> bool {
    &&& matrix_fits(m, SELECTOR_BASE as int)
    &&& forall|i: int| 0 <= i < table.len() ==> (#[trigger] table[i]).1 < FIELD_ORDER && table[i].2 < FIELD_ORDER
    &&& ext_canonical(fold)
    &&& ext_canonical(denom)
}

/// The table-side running sum over the summed rows.
fn table_sum_column(
    m: &RowMajorMatrix,
    table: &[(u64, u64, u64)],
    fold: Ext,
    denom: Ext,
    multiplicity: &Vec<Ext>,
    height: usize,
) -> (res: Result<Vec<Ext>, AirError>)
    requires
        boundary_inputs(*m, table@, fold, denom),
        height == rows(*m),
        height > 0,
        multiplicity@.len() == height,
        forall|i: int| 0 <= i < height ==> #[trigger] multiplicity@[i] == boundary_multiplicity(*m, table@, i),
        forall|i: int| 0 <= i < height ==> ext_canonical(#[trigger] multiplicity@[i]),
    ensures
        table_sum_at(*m, table@, fold, denom, height - 1) is None ==> res == Err::<Vec<Ext>, AirError>(
            AirError::DegenerateChallenge,
        ),
        table_sum_at(*m, table@, fold, denom, height - 1) is Some ==> (res matches Ok(col) && col@.len() == height
            && forall|i: int| 0 <= i < height ==> Some(#[trigger] col@[i]) == table_sum_at(*m, table@, fold, denom, i)),
{
    let mut col: Vec<Ext> = Vec::new();
    col.push(Ext { c0: 0, c1: 0 });
    let mut i: usize = 0;
    while i + 1 < height
        invariant
            boundary_inputs(*m, table@, fold, denom),
            height == rows(*m),
            i < height,
            multiplicity@.len() == height,
            forall|j: int| 0 <= j < height ==> #[trigger] multiplicity@[j] == boundary_multiplicity(*m, table@, j),
            forall|j: int| 0 <= j < height ==> ext_canonical(#[trigger] multiplicity@[j]),
            col@.len() == i + 1,
            forall|j: int| 0 <= j <= i ==> Some(#[trigger] col@[j]) == table_sum_at(*m, table@, fold, denom, j),
            forall|j: int| 0 <= j <= i ==> ext_canonical(#[trigger] col@[j]),
        decreases height - i,
    {
        proof {
            reveal(table_step);
        }
        let mult = multiplicity[i];
        let step = if mult.c0 == 0 && mult.c1 == 0 {
            Ext { c0: 0, c1: 0 }
        } else {
            let (addr, lo, hi) = if i < table.len() {
                table[i]
            } else {
                (0, 0, 0)
            };
            assert((addr, lo, hi) == table_entry_at(table@, i as int));
            let folded = fold_triple(fold, felt_new(addr), lo, hi);
            let inv = match reciprocal(denom, folded) {
                Ok(x) => x,
                Err(e) => {
                    proof {
                        assert(table_sum_at(*m, table@, fold, denom, i + 1) is None);
                        lemma_table_sum_none_persists(*m, table@, fold, denom, i + 1, height - 1);
                    }
                    return Err(e);
                },
            };
            ext_mul(mult, inv)
        };
        assert(table_step(*m, table@, fold, denom, i as int) == Some(step));
        let next = ext_add(col[i], step);
        col.push(next);
        i = i + 1;
    }
    assert(Some(col@[height - 1]) == table_sum_at(*m, table@, fold, denom, height - 1));
    Ok(col)
}

/// Channel `k`'s running sum over the summed rows.
fn channel_column(m: &RowMajorMatrix, fold: Ext, denom: Ext, k: usize, height: usize) -> (res: Result<Vec<Ext>, AirError>)
    requires
        matrix_fits(*m, SELECTOR_BASE as int),
        ext_canonical(fold),
        ext_canonical(denom),
        k < BUS_SLOTS,
        height == rows(*m),
        height > 0,
    ensures
        channel_at(*m, fold, denom, k as int, height - 1) is None ==> res == Err::<Vec<Ext>, AirError>(
            AirError::DegenerateChallenge,
        ),
        channel_at(*m, fold, denom, k as int, height - 1) is Some ==> (res matches Ok(col) && col@.len() == height
            && forall|i: int| 0 <= i < height ==> Some(#[trigger] col@[i]) == channel_at(*m, fold, denom, k as int, i)),
{
    let mut col: Vec<Ext> = Vec::new();
    col.push(Ext { c0: 0, c1: 0 });
    let mut i: usize = 0;
    while i + 1 < height
        invariant
            matrix_fits(*m, SELECTOR_BASE as int),
            ext_canonical(fold),
            ext_canonical(denom),
            k < BUS_SLOTS,
            height == rows(*m),
            i < height,
            col@.len() == i + 1,
            forall|j: int| 0 <= j <= i ==> Some(#[trigger] col@[j]) == channel_at(*m, fold, denom, k as int, j),
            forall|j: int| 0 <= j <= i ==> ext_canonical(#[trigger] col@[j]),
        decreases height - i,
    {
        proof {
            reveal(channel_step);
        }
        let entry = SortedEntry::read(m, i, k);
        let step = if entry.active == 1 && entry.same_addr == 0 && entry.is_write == 0 {
            let folded = fold_triple(fold, entry.addr, entry.lo, entry.hi);
            match reciprocal(denom, folded) {
                Ok(x) => x,
                Err(e) => {
                    proof {
                        assert(channel_at(*m, fold, denom, k as int, i + 1) is None);
                        lemma_channel_none_persists(*m, fold, denom, k as int, i + 1, height - 1);
                    }
                    return Err(e);
                },
            }
        } else {
            Ext { c0: 0, c1: 0 }
        };
        assert(channel_step(*m, fold, denom, i as int, k as int) == Some(step));
        let next = ext_add(col[i], step);
        col.push(next);
        i = i + 1;
    }
    assert(Some(col@[height - 1]) == channel_at(*m, fold, denom, k as int, height - 1));
    Ok(col)
}

/// Whether `cols` are the boundary lookup's columns over `m`: the
/// multiplicities, the table-side running sum, and one running sum per
/// sorted-log channel, each one entry per trace row.
pub open spec fn boundary_columns_hold(
    cols: Seq<Vec<Ext>>,
    m: RowMajorMatrix,
    table: Seq<(u64, u64, u64)>,
    fold: Ext,
    denom: Ext,
) -> bool {
    &&& cols.len() == 2 + BUS_SLOTS
    &&& forall|j: int| 0 <= j < cols.len() ==> (#[trigger] cols[j])@.len() == rows(m)
    &&& forall|i: int| 0 <= i < rows(m) ==> #[trigger] cols[0]@[i] == boundary_multiplicity(m, table, i)
    &&& forall|i: int| 0 <= i < rows(m) ==> Some(#[trigger] cols[1]@[i]) == table_sum_at(m, table, fold, denom, i)
    &&& forall|k: int, i: int|
        0 <= k < BUS_SLOTS && 0 <= i < rows(m) ==> Some(#[trigger] cols[2 + k]@[i]) == channel_at(m, fold, denom, k, i)
}

/// The boundary lookup's columns, binding every fresh read of the summed rows
/// to the frame's public initial-state table: per-entry multiplicities, the
/// table-side running sum of `m_i / (denom - fold(entry_i))`, and per sorted-log
/// channel the running sum of `1 / (denom - fold(read))` over its fresh reads.
///
/// Fails when the trace has fewer summed rows than the table has entries, when
/// a fresh read is absent from the table (naming the first), and when `denom`
/// collides with a folded value.
pub fn columns(m: &RowMajorMatrix, table: &[(u64, u64, u64)], fold: Ext, denom: Ext) -> (res: Result<Vec<Vec<Ext>>, AirError>)
    requires
        boundary_inputs(*m, table@, fold, denom),
    ensures
        ({
            let summed = if rows(*m) > 0 { rows(*m) - 1 } else { 0 };
            &&& table@.len() > summed ==> res == Err::<Vec<Vec<Ext>>, AirError>(
                AirError::TraceTooShortForBoundary { trace_len: rows(*m) as usize, table_len: table@.len() as usize },
            )
            &&& table@.len() <= summed && !reads_in_table(*m, table@) ==> (res matches Err(AirError::LookupBuild(msg))
                && msg@ == missing_read_text(
                first_unknown_read(*m, table@).0 as usize,
                first_unknown_read(*m, table@).1 as usize,
            ))
            &&& table@.len() <= summed && reads_in_table(*m, table@) && !sums_defined(*m, table@, fold, denom, summed)
                ==> res == Err::<Vec<Vec<Ext>>, AirError>(AirError::DegenerateChallenge)
            &&& table@.len() <= summed && reads_in_table(*m, table@) && sums_defined(*m, table@, fold, denom, summed) ==> (
            res matches Ok(cols) && boundary_columns_hold(cols@, *m, table@, fold, denom))
        }),
{
    let height = m.height();
    let summed: usize = if height > 0 {
        height - 1
    } else {
        0
    };
    if table.len() > summed {
        return Err(AirError::TraceTooShortForBoundary { trace_len: height, table_len: table.len() });
    }
    let counts = count_fresh_reads(m, table, summed)?;
    let multiplicity = multiplicity_column(m, table, &counts, height, summed);
    if height == 0 {
        let mut cols: Vec<Vec<Ext>> = Vec::new();
        cols.push(multiplicity);
        let mut j: usize = 1;
        while j < 2 + BUS_SLOTS
            invariant
                1 <= j <= 2 + BUS_SLOTS,
                cols@.len() == j,
                forall|q: int| 0 <= q < j ==> (#[trigger] cols@[q])@.len() == 0,
            decreases 2 + BUS_SLOTS - j,
        {
            cols.push(Vec::new());
            j = j + 1;
        }
        return Ok(cols);
    }
    let table_sum = table_sum_column(m, table, fold, denom, &multiplicity, height)?;
    let mut channels: Vec<Vec<Ext>> = Vec::new();
    let mut k: usize = 0;
    while k < BUS_SLOTS
        invariant
            matrix_fits(*m, SELECTOR_BASE as int),
            ext_canonical(fold),
            ext_canonical(denom),
            height == rows(*m),
            height > 0,
            summed == height - 1,
            table@.len() <= summed,
            reads_in_table(*m, table@),
            k <= BUS_SLOTS,
            channels@.len() == k,
            forall|q: int, i: int|
                0 <= q < k && 0 <= i < height ==> Some(#[trigger] channels@[q]@[i]) == channel_at(*m, fold, denom, q, i),
            forall|q: int| 0 <= q < k ==> (#[trigger] channels@[q])@.len() == height,
            forall|q: int| 0 <= q < k ==> #[trigger] channel_at(*m, fold, denom, q, summed as int) is Some,
        decreases BUS_SLOTS - k,
    {
        let ch = match channel_column(m, fold, denom, k, height) {
            Ok(c) => c,
            Err(e) => {
                assert(!sums_defined(*m, table@, fold, denom, summed as int)) by {
                    assert(channel_at(*m, fold, denom, k as int, summed as int) is None);
                }
                return Err(e);
            },
        };
        let ghost before = channels@;
        channels.push(ch);
        proof {
            assert forall|q: int, i: int| 0 <= q < k + 1 && 0 <= i < height implies Some(#[trigger] channels@[q]@[i])
                == channel_at(*m, fold, denom, q, i) by {
                if q < k {
                    assert(channels@[q] == before[q]);
                }
            }
            assert forall|q: int| 0 <= q < k + 1 implies (#[trigger] channels@[q])@.len() == height by {
                if q < k {
                    assert(channels@[q] == before[q]);
                }
            }
        }
        k = k + 1;
    }
    let mut cols: Vec<Vec<Ext>> = Vec::new();
    cols.push(multiplicity);
    cols.push(table_sum);
    let ghost front = cols@;
    let ghost chans = channels@;
    cols.append(&mut channels);
    proof {
        assert(cols@ == front + chans);
        assert forall|j: int| 0 <= j < cols@.len() implies (#[trigger] cols@[j])@.len() == rows(*m) by {
            if j >= 2 {
                assert(cols@[j] == chans[j - 2]);
            }
        }
        assert forall|k2: int, i: int| 0 <= k2 < BUS_SLOTS && 0 <= i < rows(*m) implies Some(#[trigger] cols@[2 + k2]@[i])
            == channel_at(*m, fold, denom, k2, i) by {
            assert(cols@[2 + k2] == chans[k2]);
        }
    }
    Ok(cols)
}

/// The table-side term of entry `i`: `1 / (denom - fold(entry_i))`.
#[verifier::opaque]
pub open spec fn table_term(table: Seq<(u64, u64, u64)>, fold: Ext, denom: Ext, i: int) -> Ext {
    let e = table_entry_at(table, i);
    inverse_spec(ext_sub_spec(denom, boundary_fold(fold, (e.0 % FIELD_ORDER) as u64, e.1, e.2)))
}

/// The channel term of entry `k` of row `i`: `1 / (denom - fold(entry))`.
#[verifier::opaque]
pub open spec fn read_term(m: RowMajorMatrix, fold: Ext, denom: Ext, i: int, k: int) -> Ext {
    let e = sorted_entry_at(m, i, k);
    inverse_spec(ext_sub_spec(denom, boundary_fold(fold, e.addr, e.lo, e.hi)))
}

/// Entry `i`'s fresh-read count over every summed row, zero past the table.
#[verifier::opaque]
pub open spec fn table_count(m: RowMajorMatrix, table: Seq<(u64, u64, u64)>, i: int) -> int {
    if 0 <= i < table.len() {
        hits(m, table, i, rows(m) - 1) as int
    } else {
        0
    }
}

/// One if entry `k` of row `i` is a fresh read, else zero.
pub open spec fn fresh_int(m: RowMajorMatrix, i: int, k: int) -> int {
    if fresh_at(m, i, k) {
        1
    } else {
        0
    }
}

/// The integer sum, over rows `i < j`, of coordinate `c` of the table steps.
pub open spec fn table_side(m: RowMajorMatrix, table: Seq<(u64, u64, u64)>, fold: Ext, denom: Ext, c: int, j: int) -> int
    decreases j,
{
    if j <= 0 {
        0
    } else {
        table_side(m, table, fold, denom, c, j - 1) + table_count(m, table, j - 1) * coord(
            table_term(table, fold, denom, j - 1),
            c,
        )
    }
}

/// The integer sum, over rows `i < j`, of coordinate `c` of channel `k`'s steps.
pub open spec fn channel_side(m: RowMajorMatrix, fold: Ext, denom: Ext, c: int, k: int, j: int) -> int
    decreases j,
{
    if j <= 0 {
        0
    } else {
        channel_side(m, fold, denom, c, k, j - 1) + fresh_int(m, j - 1, k) * coord(read_term(m, fold, denom, j - 1, k), c)
    }
}

/// `(a mod P + b) mod P == (a + b) mod P`.
proof fn lemma_add_mod_left(a: int, b: int)
    ensures
        (a % order() + b) % order() == (a + b) % order(),
{
    let p = order();
    lemma_add_mod_noop(a, b, p);
    lemma_add_mod_noop(a % p, b, p);
    lemma_mod_twice(a, p);
}

/// A coordinate of a defined table step.
proof fn lemma_table_step_coord(m: RowMajorMatrix, table: Seq<(u64, u64, u64)>, fold: Ext, denom: Ext, i: int, c: int)
    requires
        0 <= i,
        c == 0 || c == 1,
        table_step(m, table, fold, denom, i) is Some,
    ensures
        coord(table_step(m, table, fold, denom, i)->0, c) == ((table_count(m, table, i) % order()) * coord(
            table_term(table, fold, denom, i),
            c,
        )) % order(),
{
    reveal(table_step);
    reveal(table_term);
    reveal(table_count);
    let p = order();
    let cnt = table_count(m, table, i);
    let mult = boundary_multiplicity(m, table, i);
    let t = table_term(table, fold, denom, i);
    if 0 <= i < table.len() {
        let h = hits(m, table, i, rows(m) - 1);
        assert(h as int % p == h % (FIELD_ORDER as nat));
        lemma_mod_bound(cnt, p);
        assert(mult == ext_of((cnt % p) as u64));
    } else {
        lemma_small_mod(0, p as nat);
        assert(mult == ext_zero());
    }
    lemma_mod_bound(cnt, p);
    let x = cnt % p;
    assert(mult == ext_of(x as u64));
    if mult == ext_zero() {
        assert(x == 0);
        lemma_small_mod(0, p as nat);
    } else {
        assert(table_step(m, table, fold, denom, i) == Some(ext_mul_spec(mult, t)));
        assert(0 * t.c1 == 0 && 0 * t.c0 == 0);
        assert(coord(ext_mul_spec(mult, t), c) == (x * coord(t, c)) % p);
    }
}

/// A coordinate of a defined channel step.
proof fn lemma_channel_step_coord(m: RowMajorMatrix, fold: Ext, denom: Ext, i: int, k: int, c: int)
    requires
        c == 0 || c == 1,
        channel_step(m, fold, denom, i, k) is Some,
    ensures
        coord(channel_step(m, fold, denom, i, k)->0, c) == fresh_int(m, i, k) * coord(read_term(m, fold, denom, i, k), c),
{
    reveal(channel_step);
    reveal(read_term);
}

/// Each defined table-side row is, coordinate by coordinate, its integer sum
/// reduced into the field.
proof fn lemma_table_sum_tracks(m: RowMajorMatrix, table: Seq<(u64, u64, u64)>, fold: Ext, denom: Ext, c: int, j: int)
    requires
        0 <= j,
        c == 0 || c == 1,
        table_sum_at(m, table, fold, denom, j) is Some,
    ensures
        coord(table_sum_at(m, table, fold, denom, j)->0, c) == table_side(m, table, fold, denom, c, j) % order(),
    decreases j,
{
    let p = order();
    if j > 0 {
        lemma_table_sum_tracks(m, table, fold, denom, c, j - 1);
        lemma_table_step_coord(m, table, fold, denom, j - 1, c);
        let x = table_side(m, table, fold, denom, c, j - 1);
        let cnt = table_count(m, table, j - 1);
        let tc = coord(table_term(table, fold, denom, j - 1), c);
        lemma_mul_mod_noop_left(cnt, tc, p);
        lemma_add_mod_noop(x, cnt * tc, p);
        lemma_mod_twice(x, p);
        lemma_mod_twice(cnt * tc, p);
    } else {
        lemma_small_mod(0, p as nat);
    }
}

/// Each defined channel row is, coordinate by coordinate, its integer sum
/// reduced into the field.
proof fn lemma_channel_tracks(m: RowMajorMatrix, fold: Ext, denom: Ext, c: int, k: int, j: int)
    requires
        0 <= j,
        c == 0 || c == 1,
        channel_at(m, fold, denom, k, j) is Some,
    ensures
        coord(channel_at(m, fold, denom, k, j)->0, c) == channel_side(m, fold, denom, c, k, j) % order(),
    decreases j,
{
    let p = order();
    if j > 0 {
        lemma_channel_tracks(m, fold, denom, c, k, j - 1);
        lemma_channel_step_coord(m, fold, denom, j - 1, k, c);
        let x = channel_side(m, fold, denom, c, k, j - 1);
        lemma_add_mod_left(x, fresh_int(m, j - 1, k) * coord(read_term(m, fold, denom, j - 1, k), c));
    } else {
        lemma_small_mod(0, p as nat);
    }
}

/// The position `table_position` finds holds the key it was asked for.
proof fn lemma_table_position(table: Seq<(u64, u64, u64)>, key: (u64, u64, u64))
    ensures
        table_position(table, key) matches Some(p) ==> 0 <= p < table.len() && table[p] == key,
    decreases table.len(),
{
    if table.len() > 0 && table.last() != key {
        lemma_table_position(table.drop_last(), key);
    }
}

/// `sum over p < q` of `row_hits(p, r, k)` times coordinate `c` of entry `p`'s term.
pub open spec fn weighted_row(
    m: RowMajorMatrix,
    table: Seq<(u64, u64, u64)>,
    fold: Ext,
    denom: Ext,
    c: int,
    r: int,
    k: int,
    q: int,
) -> int
    decreases q,
{
    if q <= 0 {
        0
    } else {
        weighted_row(m, table, fold, denom, c, r, k, q - 1) + row_hits(m, table, q - 1, r, k) * coord(
            table_term(table, fold, denom, q - 1),
            c,
        )
    }
}

/// `sum over p < q` of `hits(p, n)` times coordinate `c` of entry `p`'s term.
pub open spec fn weighted_hits(
    m: RowMajorMatrix,
    table: Seq<(u64, u64, u64)>,
    fold: Ext,
    denom: Ext,
    c: int,
    n: int,
    q: int,
) -> int
    decreases q,
{
    if q <= 0 {
        0
    } else {
        weighted_hits(m, table, fold, denom, c, n, q - 1) + hits(m, table, q - 1, n) * coord(
            table_term(table, fold, denom, q - 1),
            c,
        )
    }
}

/// `sum over entries k' < k` of row `r` of the fresh reads' terms, coordinate `c`.
pub open spec fn row_reads(m: RowMajorMatrix, fold: Ext, denom: Ext, c: int, r: int, k: int) -> int
    decreases k,
{
    if k <= 0 {
        0
    } else {
        row_reads(m, fold, denom, c, r, k - 1) + fresh_int(m, r, k - 1) * coord(read_term(m, fold, denom, r, k - 1), c)
    }
}

/// `sum over channels k' < k` of `channel_side(c, k', j)`.
pub open spec fn channels_side(m: RowMajorMatrix, fold: Ext, denom: Ext, c: int, k: int, j: int) -> int
    decreases k,
{
    if k <= 0 {
        0
    } else {
        channels_side(m, fold, denom, c, k - 1, j) + channel_side(m, fold, denom, c, k - 1, j)
    }
}

/// The channels' running sums at row `n`, added together over channels `k' < k`.
pub open spec fn channels_total(m: RowMajorMatrix, fold: Ext, denom: Ext, k: int, n: int) -> Ext
    decreases k,
{
    if k <= 0 {
        ext_zero()
    } else {
        ext_add_spec(channels_total(m, fold, denom, k - 1, n), channel_at(m, fold, denom, k - 1, n)->0)
    }
}

/// Before any entry, no row hits any table entry.
proof fn lemma_weighted_row_empty(m: RowMajorMatrix, table: Seq<(u64, u64, u64)>, fold: Ext, denom: Ext, c: int, r: int, q: int)
    requires
        0 <= q,
    ensures
        weighted_row(m, table, fold, denom, c, r, 0, q) == 0,
    decreases q,
{
    if q > 0 {
        lemma_weighted_row_empty(m, table, fold, denom, c, r, q - 1);
        assert(row_hits(m, table, q - 1, r, 0) == 0);
        let t = coord(table_term(table, fold, denom, q - 1), c);
        assert(0 * t == 0);
    }
}

/// Before any row, nothing hits any table entry.
proof fn lemma_weighted_hits_empty(m: RowMajorMatrix, table: Seq<(u64, u64, u64)>, fold: Ext, denom: Ext, c: int, q: int)
    requires
        0 <= q,
    ensures
        weighted_hits(m, table, fold, denom, c, 0, q) == 0,
    decreases q,
{
    if q > 0 {
        lemma_weighted_hits_empty(m, table, fold, denom, c, q - 1);
        assert(hits(m, table, q - 1, 0) == 0);
    }
}

/// Before any row, every channel sums to nothing.
proof fn lemma_channels_empty(m: RowMajorMatrix, fold: Ext, denom: Ext, c: int, k: int)
    requires
        0 <= k,
    ensures
        channels_side(m, fold, denom, c, k, 0) == 0,
    decreases k,
{
    if k > 0 {
        lemma_channels_empty(m, fold, denom, c, k - 1);
    }
}

/// Entry `k` of row `r` adds its term to the weighted sum of the entry it hits.
proof fn lemma_weighted_row_step(
    m: RowMajorMatrix,
    table: Seq<(u64, u64, u64)>,
    fold: Ext,
    denom: Ext,
    c: int,
    r: int,
    k: int,
    q: int,
)
    requires
        0 <= k,
        0 <= q,
    ensures
        ({
            let hit = table_position(table, entry_key(sorted_entry_at(m, r, k)));
            weighted_row(m, table, fold, denom, c, r, k + 1, q) == weighted_row(m, table, fold, denom, c, r, k, q) + if fresh_at(
                m,
                r,
                k,
            ) && hit is Some && hit->0 < q {
                coord(table_term(table, fold, denom, hit->0), c)
            } else {
                0
            }
        }),
    decreases q,
{
    let hit = table_position(table, entry_key(sorted_entry_at(m, r, k)));
    lemma_table_position(table, entry_key(sorted_entry_at(m, r, k)));
    if q > 0 {
        lemma_weighted_row_step(m, table, fold, denom, c, r, k, q - 1);
        let a = row_hits(m, table, q - 1, r, k) as int;
        let t = coord(table_term(table, fold, denom, q - 1), c);
        assert((a + 1) * t == a * t + t) by (nonlinear_arith);
    }
}

/// A summed row's fresh reads add up to the weighted sum of the entries they hit.
proof fn lemma_row_reads_weighted(
    m: RowMajorMatrix,
    table: Seq<(u64, u64, u64)>,
    fold: Ext,
    denom: Ext,
    c: int,
    r: int,
    k: int,
)
    requires
        boundary_inputs(m, table, fold, denom),
        reads_in_table(m, table),
        0 <= r < rows(m) - 1,
        0 <= k <= BUS_SLOTS,
    ensures
        row_reads(m, fold, denom, c, r, k) == weighted_row(m, table, fold, denom, c, r, k, table.len() as int),
    decreases k,
{
    if k == 0 {
        lemma_weighted_row_empty(m, table, fold, denom, c, r, table.len() as int);
    } else {
        let j = k - 1;
        lemma_row_reads_weighted(m, table, fold, denom, c, r, j);
        lemma_weighted_row_step(m, table, fold, denom, c, r, j, table.len() as int);
        let e = sorted_entry_at(m, r, j);
        let hit = table_position(table, entry_key(e));
        lemma_table_position(table, entry_key(e));
        if fresh_at(m, r, j) {
            assert(!unknown_read(m, table, r, j));
            let p0 = hit->0;
            lemma_entry_canonical(m, SELECTOR_BASE as int, r, SORTED_BASE + j * SORTED_SLOT_COLS + sorted::ADDR);
            lemma_small_mod(e.addr as nat, FIELD_ORDER as nat);
            assert(table_entry_at(table, p0) == (e.addr, e.lo, e.hi));
            assert(read_term(m, fold, denom, r, j) == table_term(table, fold, denom, p0)) by {
                reveal(read_term);
                reveal(table_term);
            }
        }
    }
}

/// One more summed row adds its weighted hits.
proof fn lemma_weighted_hits_step(m: RowMajorMatrix, table: Seq<(u64, u64, u64)>, fold: Ext, denom: Ext, c: int, n: int, q: int)
    requires
        0 <= n,
        0 <= q,
    ensures
        weighted_hits(m, table, fold, denom, c, n + 1, q) == weighted_hits(m, table, fold, denom, c, n, q) + weighted_row(
            m,
            table,
            fold,
            denom,
            c,
            n,
            BUS_SLOTS as int,
            q,
        ),
    decreases q,
{
    if q > 0 {
        lemma_weighted_hits_step(m, table, fold, denom, c, n, q - 1);
        let a = hits(m, table, q - 1, n) as int;
        let b = row_hits(m, table, q - 1, n, BUS_SLOTS as int) as int;
        let t = coord(table_term(table, fold, denom, q - 1), c);
        assert((a + b) * t == a * t + b * t) by (nonlinear_arith);
    }
}

/// One more row adds its fresh reads to the channels together.
proof fn lemma_channels_row(m: RowMajorMatrix, fold: Ext, denom: Ext, c: int, k: int, j: int)
    requires
        0 <= k,
        0 <= j,
    ensures
        channels_side(m, fold, denom, c, k, j + 1) == channels_side(m, fold, denom, c, k, j) + row_reads(m, fold, denom, c, j, k),
    decreases k,
{
    if k > 0 {
        lemma_channels_row(m, fold, denom, c, k - 1, j);
    }
}

/// Over the first `j` summed rows, the channels together equal the weighted hits.
proof fn lemma_channels_balance(m: RowMajorMatrix, table: Seq<(u64, u64, u64)>, fold: Ext, denom: Ext, c: int, j: int)
    requires
        boundary_inputs(m, table, fold, denom),
        reads_in_table(m, table),
        0 <= j <= rows(m) - 1,
    ensures
        channels_side(m, fold, denom, c, BUS_SLOTS as int, j) == weighted_hits(m, table, fold, denom, c, j, table.len() as int),
    decreases j,
{
    if j == 0 {
        lemma_channels_empty(m, fold, denom, c, BUS_SLOTS as int);
        lemma_weighted_hits_empty(m, table, fold, denom, c, table.len() as int);
    } else {
        lemma_channels_balance(m, table, fold, denom, c, j - 1);
        lemma_channels_row(m, fold, denom, c, BUS_SLOTS as int, j - 1);
        lemma_row_reads_weighted(m, table, fold, denom, c, j - 1, BUS_SLOTS as int);
        lemma_weighted_hits_step(m, table, fold, denom, c, j - 1, table.len() as int);
    }
}

/// The table side over its first `j` rows is the weighted hits of its first
/// `min(j, len)` entries.
proof fn lemma_table_side_weighted(m: RowMajorMatrix, table: Seq<(u64, u64, u64)>, fold: Ext, denom: Ext, c: int, j: int)
    requires
        0 <= j,
    ensures
        table_side(m, table, fold, denom, c, j) == weighted_hits(
            m,
            table,
            fold,
            denom,
            c,
            rows(m) - 1,
            if j < table.len() { j } else { table.len() as int },
        ),
    decreases j,
{
    if j > 0 {
        lemma_table_side_weighted(m, table, fold, denom, c, j - 1);
        reveal(table_count);
    }
}

/// The channels added together are, coordinate by coordinate, their integer
/// sums reduced into the field.
proof fn lemma_channels_total_tracks(m: RowMajorMatrix, fold: Ext, denom: Ext, c: int, k: int, n: int)
    requires
        0 <= k <= BUS_SLOTS,
        0 <= n,
        c == 0 || c == 1,
        forall|q: int| 0 <= q < BUS_SLOTS ==> #[trigger] channel_at(m, fold, denom, q, n) is Some,
    ensures
        coord(channels_total(m, fold, denom, k, n), c) == channels_side(m, fold, denom, c, k, n) % order(),
    decreases k,
{
    let p = order();
    if k > 0 {
        lemma_channels_total_tracks(m, fold, denom, c, k - 1, n);
        assert(channel_at(m, fold, denom, k - 1, n) is Some);
        lemma_channel_tracks(m, fold, denom, c, k - 1, n);
        let x = channels_side(m, fold, denom, c, k - 1, n);
        let y = channel_side(m, fold, denom, c, k - 1, n);
        lemma_add_mod_noop(x, y, p);
        lemma_mod_bound(x + y, p);
    } else {
        lemma_small_mod(0, p as nat);
    }
}

/// When every fresh read of the summed rows is in the table and every running
/// sum is defined, the table side's running sum closes equal to the channels'
/// running sums added together: the boundary lookup balances.
pub proof fn law_fresh_reads_balance(m: RowMajorMatrix, table: Seq<(u64, u64, u64)>, fold: Ext, denom: Ext)
    requires
        boundary_inputs(m, table, fold, denom),
        rows(m) > 0,
        table.len() <= rows(m) - 1,
        reads_in_table(m, table),
        sums_defined(m, table, fold, denom, rows(m) - 1),
    ensures
        table_sum_at(m, table, fold, denom, rows(m) - 1) == Some(channels_total(m, fold, denom, BUS_SLOTS as int, rows(m) - 1)),
{
    let n = rows(m) - 1;
    let t = table_sum_at(m, table, fold, denom, n)->0;
    let s = channels_total(m, fold, denom, BUS_SLOTS as int, n);
    assert forall|c: int| c == 0 || c == 1 implies coord(t, c) == coord(s, c) by {
        lemma_table_sum_tracks(m, table, fold, denom, c, n);
        lemma_table_side_weighted(m, table, fold, denom, c, n);
        lemma_channels_balance(m, table, fold, denom, c, n);
        lemma_channels_total_tracks(m, fold, denom, c, BUS_SLOTS as int, n);
    }
    assert(coord(t, 0) == coord(s, 0));
    assert(coord(t, 1) == coord(s, 1));
}

} // verus!
