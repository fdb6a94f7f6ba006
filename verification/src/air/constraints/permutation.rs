//! Bus-to-sorted-log consistency permutation: a log-derivative multiset
//! equality argument.
//!
//! Read-consistency proves the address-sorted log is internally coherent, but
//! only once that log holds the same accesses the machine performed. The two
//! running sums built here tie the execution-order value bus to the sorted log:
//! each adds `1 / (denom - fold(access))` for every active access of a row.

use vstd::prelude::*;
use crate::air::bus::{BusSlot, SortedEntry, bus_slot_at, sorted_entry_at};
use crate::air::error::AirError;
use crate::air::field::{
    Ext, ext_add, ext_add_spec, ext_canonical, ext_from, ext_inverse_spec, lemma_ext_inverse_is, ext_mul, ext_mul_spec, ext_of, ext_sub,
    ext_sub_spec, ext_sum, ext_try_inverse, ext_zero, felt_add, felt_mul, fp_add, fp_mul, lemma_ext_sum_concat,
    lemma_ext_sum_permutation,
};
use crate::air::matrix::{RowMajorMatrix, at, matrix_fits, rows};
use crate::trace::layout::{BUS_SLOTS, COL_CLK, SELECTOR_BASE};

verus! {

/// The terms folded at challenge `c` by Horner's rule, first term lowest:
/// `terms[0] + c * (terms[1] + c * (...))`, each step multiplying the
/// accumulator by `c` before adding the next term down.
pub open spec fn fold_terms(c: Ext, terms: Seq<u64>) -> Ext
    decreases terms.len(),
{
    if terms.len() == 0 {
        ext_zero()
    } else {
        ext_add_spec(ext_mul_spec(fold_terms(c, terms.drop_first()), c), ext_of(terms[0]))
    }
}

/// The inverse of a nonzero extension element.
pub open spec fn inverse_spec(d: Ext) -> Ext {
    ext_inverse_spec(d)
}

/// `1 / (denom - folded)`, or `None` when the challenge collides with the
/// folded value.
pub open spec fn reciprocal_spec(denom: Ext, folded: Ext) -> Option<Ext> {
    let d = ext_sub_spec(denom, folded);
    if d == ext_zero() {
        None
    } else {
        Some(inverse_spec(d))
    }
}

/// One Horner step: folding `t` in front of `rest`.
proof fn lemma_fold_step(c: Ext, t: u64, rest: Seq<u64>)
    ensures
        fold_terms(c, seq![t] + rest) == ext_add_spec(ext_mul_spec(fold_terms(c, rest), c), ext_of(t)),
{
    assert((seq![t] + rest).drop_first() =~= rest);
}

/// An access `(addr, ts, lo, hi, is_write)` folded into one extension element.
#[verifier::spinoff_prover]
pub fn fold_access(challenge: Ext, addr: u64, ts: u64, lo: u64, hi: u64, is_write: u64) -> (r: Ext)
    requires
        addr < crate::air::constraints::FIELD_ORDER,
        ts < crate::air::constraints::FIELD_ORDER,
        lo < crate::air::constraints::FIELD_ORDER,
        hi < crate::air::constraints::FIELD_ORDER,
        is_write < crate::air::constraints::FIELD_ORDER,
    ensures
        r == fold_terms(challenge, seq![addr, ts, lo, hi, is_write]),
        ext_canonical(r),
{
    let zero = Ext { c0: 0, c1: 0 };
    let ghost e = Seq::<u64>::empty();
    let ghost s1 = seq![is_write] + e;
    let ghost s2 = seq![hi] + s1;
    let ghost s3 = seq![lo] + s2;
    let ghost s4 = seq![ts] + s3;
    let ghost s5 = seq![addr] + s4;
    let a1 = ext_add(ext_mul(zero, challenge), ext_from(is_write));
    proof {
        lemma_fold_step(challenge, is_write, e);
    }
    let a2 = ext_add(ext_mul(a1, challenge), ext_from(hi));
    proof {
        lemma_fold_step(challenge, hi, s1);
    }
    let a3 = ext_add(ext_mul(a2, challenge), ext_from(lo));
    proof {
        lemma_fold_step(challenge, lo, s2);
    }
    let a4 = ext_add(ext_mul(a3, challenge), ext_from(ts));
    proof {
        lemma_fold_step(challenge, ts, s3);
    }
    let a5 = ext_add(ext_mul(a4, challenge), ext_from(addr));
    proof {
        lemma_fold_step(challenge, addr, s4);
        assert(s5 =~= seq![addr, ts, lo, hi, is_write]);
    }
    a5
}

/// `1 / (denom - folded)`, or [`AirError::DegenerateChallenge`] when the
/// challenge collides with the folded value.
pub fn reciprocal(denom: Ext, folded: Ext) -> (r: Result<Ext, AirError>)
    requires
        ext_canonical(denom),
        ext_canonical(folded),
    ensures
        match reciprocal_spec(denom, folded) {
            Some(x) => r == Ok::<Ext, AirError>(x),
            None => r == Err::<Ext, AirError>(AirError::DegenerateChallenge),
        },
        r matches Ok(x) ==> ext_canonical(x),
{
    let d = ext_sub(denom, folded);
    match ext_try_inverse(d) {
        Some(x) => {
            proof {
                lemma_ext_inverse_is(d, x);
            }
            Ok(x)
        },
        None => Err(AirError::DegenerateChallenge),
    }
}

/// The timestamp bus slot `s` of row `r` carries: `clk * BUS_SLOTS + s`.
pub open spec fn bus_timestamp(m: RowMajorMatrix, r: int, s: int) -> u64 {
    fp_add(fp_mul(at(m, r, COL_CLK as int), BUS_SLOTS as u64), s as u64)
}

/// Bus slot `s` of row `r` folded at `fold`.
pub open spec fn bus_folded(m: RowMajorMatrix, r: int, s: int, fold: Ext) -> Ext {
    let slot = bus_slot_at(m, r, s);
    fold_terms(fold, seq![slot.addr, bus_timestamp(m, r, s), slot.lo, slot.hi, slot.is_write])
}

/// Sorted entry `e` of row `r` folded at `fold`.
pub open spec fn sorted_folded(m: RowMajorMatrix, r: int, e: int, fold: Ext) -> Ext {
    let entry = sorted_entry_at(m, r, e);
    fold_terms(fold, seq![entry.addr, entry.ts, entry.lo, entry.hi, entry.is_write])
}

/// The sum, over the active bus slots of row `r` below `n`, of
/// `1 / (denom - fold(slot))`; `None` when a denominator vanishes.
pub open spec fn bus_sum(m: RowMajorMatrix, r: int, denom: Ext, fold: Ext, n: int) -> Option<Ext>
    decreases n,
{
    if n <= 0 {
        Some(ext_zero())
    } else {
        match bus_sum(m, r, denom, fold, n - 1) {
            None => None,
            Some(acc) => if bus_slot_at(m, r, n - 1).active == 0 {
                Some(acc)
            } else {
                match reciprocal_spec(denom, bus_folded(m, r, n - 1, fold)) {
                    None => None,
                    Some(x) => Some(ext_add_spec(acc, x)),
                }
            },
        }
    }
}

/// The sum, over the active sorted entries of row `r` below `n`, of
/// `1 / (denom - fold(entry))`; `None` when a denominator vanishes.
pub open spec fn sorted_sum(m: RowMajorMatrix, r: int, denom: Ext, fold: Ext, n: int) -> Option<Ext>
    decreases n,
{
    if n <= 0 {
        Some(ext_zero())
    } else {
        match sorted_sum(m, r, denom, fold, n - 1) {
            None => None,
            Some(acc) => if sorted_entry_at(m, r, n - 1).active == 0 {
                Some(acc)
            } else {
                match reciprocal_spec(denom, sorted_folded(m, r, n - 1, fold)) {
                    None => None,
                    Some(x) => Some(ext_add_spec(acc, x)),
                }
            },
        }
    }
}

/// Once a slot's denominator vanishes, the sum over any longer prefix of the
/// row's slots is undefined too.
proof fn lemma_bus_sum_none_persists(m: RowMajorMatrix, r: int, denom: Ext, fold: Ext, k: int, n: int)
    requires
        0 <= k <= n,
        bus_sum(m, r, denom, fold, k) is None,
    ensures
        bus_sum(m, r, denom, fold, n) is None,
    decreases n - k,
{
    if n > k {
        lemma_bus_sum_none_persists(m, r, denom, fold, k, n - 1);
    }
}

/// Once an entry's denominator vanishes, the sum over any longer prefix of the
/// row's entries is undefined too.
proof fn lemma_sorted_sum_none_persists(m: RowMajorMatrix, r: int, denom: Ext, fold: Ext, k: int, n: int)
    requires
        0 <= k <= n,
        sorted_sum(m, r, denom, fold, k) is None,
    ensures
        sorted_sum(m, r, denom, fold, n) is None,
    decreases n - k,
{
    if n > k {
        lemma_sorted_sum_none_persists(m, r, denom, fold, k, n - 1);
    }
}

/// Whether `m`, `denom` and `fold` fit the consistency columns: the matrix
/// holds the bus and the sorted log in canonical form and the challenges are
/// canonical.
pub open spec fn permutation_inputs(m: RowMajorMatrix, denom: Ext, fold: Ext) -> bool {
    &&& matrix_fits(m, SELECTOR_BASE as int)
    &&& ext_canonical(denom)
    &&& ext_canonical(fold)
}

/// The contribution of row `r` to the bus accumulator: one reciprocal per
/// active slot.
pub fn bus_contribution(m: &RowMajorMatrix, r: usize, denom: Ext, fold: Ext) -> (res: Result<Ext, AirError>)
    requires
        permutation_inputs(*m, denom, fold),
        r < rows(*m),
    ensures
        match bus_sum(*m, r as int, denom, fold, BUS_SLOTS as int) {
            Some(x) => res == Ok::<Ext, AirError>(x),
            None => res == Err::<Ext, AirError>(AirError::DegenerateChallenge),
        },
        res matches Ok(x) ==> ext_canonical(x),
{
    let clk = m.get(r, COL_CLK);
    let mut acc = Ext { c0: 0, c1: 0 };
    let mut s: usize = 0;
    while s < BUS_SLOTS
        invariant
            permutation_inputs(*m, denom, fold),
            r < rows(*m),
            s <= BUS_SLOTS,
            clk == at(*m, r as int, COL_CLK as int),
            bus_sum(*m, r as int, denom, fold, s as int) == Some(acc),
            ext_canonical(acc),
        decreases BUS_SLOTS - s,
    {
        let slot = BusSlot::read(m, r, s);
        if slot.active != 0 {
            let ts = felt_add(felt_mul(clk, BUS_SLOTS as u64), s as u64);
            let folded = fold_access(fold, slot.addr, ts, slot.lo, slot.hi, slot.is_write);
            let inv = match reciprocal(denom, folded) {
                Ok(x) => x,
                Err(e) => {
                    proof {
                        lemma_bus_sum_none_persists(*m, r as int, denom, fold, s + 1, BUS_SLOTS as int);
                    }
                    return Err(e);
                },
            };
            acc = ext_add(acc, inv);
        }
        s = s + 1;
    }
    Ok(acc)
}

/// The contribution of row `r` to the sorted-log accumulator: one reciprocal
/// per active entry.
pub fn sorted_contribution(m: &RowMajorMatrix, r: usize, denom: Ext, fold: Ext) -> (res: Result<Ext, AirError>)
    requires
        permutation_inputs(*m, denom, fold),
        r < rows(*m),
    ensures
        match sorted_sum(*m, r as int, denom, fold, BUS_SLOTS as int) {
            Some(x) => res == Ok::<Ext, AirError>(x),
            None => res == Err::<Ext, AirError>(AirError::DegenerateChallenge),
        },
        res matches Ok(x) ==> ext_canonical(x),
{
    let mut acc = Ext { c0: 0, c1: 0 };
    let mut e: usize = 0;
    while e < BUS_SLOTS
        invariant
            permutation_inputs(*m, denom, fold),
            r < rows(*m),
            e <= BUS_SLOTS,
            sorted_sum(*m, r as int, denom, fold, e as int) == Some(acc),
            ext_canonical(acc),
        decreases BUS_SLOTS - e,
    {
        let entry = SortedEntry::read(m, r, e);
        if entry.active != 0 {
            let folded = fold_access(fold, entry.addr, entry.ts, entry.lo, entry.hi, entry.is_write);
            let inv = match reciprocal(denom, folded) {
                Ok(x) => x,
                Err(err) => {
                    proof {
                        lemma_sorted_sum_none_persists(*m, r as int, denom, fold, e + 1, BUS_SLOTS as int);
                    }
                    return Err(err);
                },
            };
            acc = ext_add(acc, inv);
        }
        e = e + 1;
    }
    Ok(acc)
}

/// Whether every summed row (every row but the last) of `m` has a defined bus
/// and sorted-log contribution.
pub open spec fn contributions_defined(m: RowMajorMatrix, denom: Ext, fold: Ext) -> bool {
    &&& forall|r: int| 0 <= r < rows(m) - 1 ==> #[trigger] bus_sum(m, r, denom, fold, BUS_SLOTS as int) is Some
    &&& forall|r: int| 0 <= r < rows(m) - 1 ==> #[trigger] sorted_sum(m, r, denom, fold, BUS_SLOTS as int) is Some
}

/// Whether `acc` is a running sum of `contribution` over the rows of a trace
/// of `height` rows: zero on the first row, and each later row the previous
/// one plus the previous row's contribution.
pub open spec fn running_sum(acc: Seq<Ext>, height: int, contribution: spec_fn(int) -> Ext) -> bool {
    &&& acc.len() == height
    &&& height > 0 ==> acc[0] == ext_zero()
    &&& forall|r: int| 0 < r < height ==> #[trigger] acc[r] == ext_add_spec(acc[r - 1], contribution(r - 1))
}

/// The bus accumulator's per-row contribution.
pub open spec fn bus_row(m: RowMajorMatrix, denom: Ext, fold: Ext) -> spec_fn(int) -> Ext {
    |r: int| bus_sum(m, r, denom, fold, BUS_SLOTS as int)->0
}

/// The sorted-log accumulator's per-row contribution.
pub open spec fn sorted_row(m: RowMajorMatrix, denom: Ext, fold: Ext) -> spec_fn(int) -> Ext {
    |r: int| sorted_sum(m, r, denom, fold, BUS_SLOTS as int)->0
}

/// The two permutation columns: the running sums, over the bus and over the
/// sorted log, of `1 / (denom - fold(access))` for every active access of
/// every row but the last. Fails with [`AirError::DegenerateChallenge`] when a
/// denominator vanishes.
pub fn consistency_columns(m: &RowMajorMatrix, denom: Ext, fold: Ext) -> (res: Result<(Vec<Ext>, Vec<Ext>), AirError>)
    requires
        permutation_inputs(*m, denom, fold),
    ensures
        contributions_defined(*m, denom, fold) ==> (res matches Ok((bus, sorted)) && running_sum(
            bus@,
            rows(*m),
            bus_row(*m, denom, fold),
        ) && running_sum(sorted@, rows(*m), sorted_row(*m, denom, fold))),
        !contributions_defined(*m, denom, fold) ==> res == Err::<(Vec<Ext>, Vec<Ext>), AirError>(
            AirError::DegenerateChallenge,
        ),
{
    let height = m.height();
    let mut bus_acc: Vec<Ext> = Vec::new();
    let mut sorted_acc: Vec<Ext> = Vec::new();
    if height == 0 {
        return Ok((bus_acc, sorted_acc));
    }
    bus_acc.push(Ext { c0: 0, c1: 0 });
    sorted_acc.push(Ext { c0: 0, c1: 0 });
    let mut r: usize = 0;
    while r + 1 < height
        invariant
            permutation_inputs(*m, denom, fold),
            height == rows(*m),
            height > 0,
            r < height,
            bus_acc@.len() == r + 1,
            sorted_acc@.len() == r + 1,
            bus_acc@[0] == ext_zero(),
            sorted_acc@[0] == ext_zero(),
            forall|k: int| 0 <= k <= r ==> ext_canonical(#[trigger] bus_acc@[k]) && ext_canonical(sorted_acc@[k]),
            forall|k: int| 0 <= k < r ==> #[trigger] bus_sum(*m, k, denom, fold, BUS_SLOTS as int) is Some,
            forall|k: int| 0 <= k < r ==> #[trigger] sorted_sum(*m, k, denom, fold, BUS_SLOTS as int) is Some,
            forall|k: int| 0 < k <= r ==> #[trigger] bus_acc@[k] == ext_add_spec(bus_acc@[k - 1], bus_row(*m, denom, fold)(k - 1)),
            forall|k: int|
                0 < k <= r ==> #[trigger] sorted_acc@[k] == ext_add_spec(sorted_acc@[k - 1], sorted_row(*m, denom, fold)(k - 1)),
        decreases height - r,
    {
        let b = match bus_contribution(m, r, denom, fold) {
            Ok(x) => x,
            Err(e) => {
                assert(!contributions_defined(*m, denom, fold)) by {
                    assert(bus_sum(*m, r as int, denom, fold, BUS_SLOTS as int) is None);
                }
                return Err(e);
            },
        };
        let s = match sorted_contribution(m, r, denom, fold) {
            Ok(x) => x,
            Err(e) => {
                assert(!contributions_defined(*m, denom, fold)) by {
                    assert(sorted_sum(*m, r as int, denom, fold, BUS_SLOTS as int) is None);
                }
                return Err(e);
            },
        };
        let next_bus = ext_add(bus_acc[r], b);
        let next_sorted = ext_add(sorted_acc[r], s);
        bus_acc.push(next_bus);
        sorted_acc.push(next_sorted);
        r = r + 1;
    }
    Ok((bus_acc, sorted_acc))
}

/// The term an access `(addr, ts, lo, hi, is_write)` adds to a running sum:
/// `1 / (denom - fold(access))`.
pub open spec fn access_term(denom: Ext, fold: Ext) -> spec_fn((u64, u64, u64, u64, u64)) -> Ext {
    |t: (u64, u64, u64, u64, u64)| inverse_spec(ext_sub_spec(denom, fold_terms(fold, seq![t.0, t.1, t.2, t.3, t.4])))
}

/// The active bus accesses of row `r` among its first `n` slots, in slot order.
pub open spec fn bus_row_accesses(m: RowMajorMatrix, r: int, n: int) -> Seq<(u64, u64, u64, u64, u64)>
    decreases n,
{
    if n <= 0 {
        Seq::empty()
    } else {
        let prev = bus_row_accesses(m, r, n - 1);
        let slot = bus_slot_at(m, r, n - 1);
        if slot.active == 0 {
            prev
        } else {
            prev.push((slot.addr, bus_timestamp(m, r, n - 1), slot.lo, slot.hi, slot.is_write))
        }
    }
}

/// The active sorted-log entries of row `r` among its first `n`, in order.
pub open spec fn sorted_row_accesses(m: RowMajorMatrix, r: int, n: int) -> Seq<(u64, u64, u64, u64, u64)>
    decreases n,
{
    if n <= 0 {
        Seq::empty()
    } else {
        let prev = sorted_row_accesses(m, r, n - 1);
        let entry = sorted_entry_at(m, r, n - 1);
        if entry.active == 0 {
            prev
        } else {
            prev.push((entry.addr, entry.ts, entry.lo, entry.hi, entry.is_write))
        }
    }
}

/// The active bus accesses of the first `k` rows, row by row.
pub open spec fn bus_accesses(m: RowMajorMatrix, k: int) -> Seq<(u64, u64, u64, u64, u64)>
    decreases k,
{
    if k <= 0 {
        Seq::empty()
    } else {
        bus_accesses(m, k - 1) + bus_row_accesses(m, k - 1, BUS_SLOTS as int)
    }
}

/// The active sorted-log entries of the first `k` rows, row by row.
pub open spec fn sorted_accesses(m: RowMajorMatrix, k: int) -> Seq<(u64, u64, u64, u64, u64)>
    decreases k,
{
    if k <= 0 {
        Seq::empty()
    } else {
        sorted_accesses(m, k - 1) + sorted_row_accesses(m, k - 1, BUS_SLOTS as int)
    }
}

/// A row's defined bus contribution sums the term of each of its active accesses.
proof fn lemma_bus_sum_is_total(m: RowMajorMatrix, r: int, denom: Ext, fold: Ext, n: int)
    requires
        bus_sum(m, r, denom, fold, n) is Some,
    ensures
        bus_sum(m, r, denom, fold, n) == Some(ext_sum(bus_row_accesses(m, r, n), access_term(denom, fold))),
    decreases n,
{
    if n > 0 {
        lemma_bus_sum_is_total(m, r, denom, fold, n - 1);
        let prev = bus_row_accesses(m, r, n - 1);
        let slot = bus_slot_at(m, r, n - 1);
        if slot.active != 0 {
            let t = (slot.addr, bus_timestamp(m, r, n - 1), slot.lo, slot.hi, slot.is_write);
            assert(prev.push(t).drop_last() =~= prev);
            assert(seq![t.0, t.1, t.2, t.3, t.4] =~= seq![slot.addr, bus_timestamp(m, r, n - 1), slot.lo, slot.hi, slot.is_write]);
        }
    }
}

/// A row's defined sorted-log contribution sums the term of each of its active
/// entries.
proof fn lemma_sorted_sum_is_total(m: RowMajorMatrix, r: int, denom: Ext, fold: Ext, n: int)
    requires
        sorted_sum(m, r, denom, fold, n) is Some,
    ensures
        sorted_sum(m, r, denom, fold, n) == Some(ext_sum(sorted_row_accesses(m, r, n), access_term(denom, fold))),
    decreases n,
{
    if n > 0 {
        lemma_sorted_sum_is_total(m, r, denom, fold, n - 1);
        let prev = sorted_row_accesses(m, r, n - 1);
        let entry = sorted_entry_at(m, r, n - 1);
        if entry.active != 0 {
            let t = (entry.addr, entry.ts, entry.lo, entry.hi, entry.is_write);
            assert(prev.push(t).drop_last() =~= prev);
            assert(seq![t.0, t.1, t.2, t.3, t.4] =~= seq![entry.addr, entry.ts, entry.lo, entry.hi, entry.is_write]);
        }
    }
}

/// The bus accumulator at row `k` sums the terms of every active bus access of
/// the rows before it.
proof fn lemma_bus_column_is_total(m: RowMajorMatrix, denom: Ext, fold: Ext, bus: Seq<Ext>, k: int)
    requires
        contributions_defined(m, denom, fold),
        running_sum(bus, rows(m), bus_row(m, denom, fold)),
        0 <= k < rows(m),
    ensures
        bus[k] == ext_sum(bus_accesses(m, k), access_term(denom, fold)),
    decreases k,
{
    if k > 0 {
        lemma_bus_column_is_total(m, denom, fold, bus, k - 1);
        assert(bus_sum(m, k - 1, denom, fold, BUS_SLOTS as int) is Some);
        lemma_bus_sum_is_total(m, k - 1, denom, fold, BUS_SLOTS as int);
        assert(bus[k] == ext_add_spec(bus[k - 1], bus_row(m, denom, fold)(k - 1)));
        lemma_ext_sum_concat(bus_accesses(m, k - 1), bus_row_accesses(m, k - 1, BUS_SLOTS as int), access_term(denom, fold));
    }
}

/// The sorted-log accumulator at row `k` sums the terms of every active
/// sorted-log entry of the rows before it.
proof fn lemma_sorted_column_is_total(m: RowMajorMatrix, denom: Ext, fold: Ext, sorted: Seq<Ext>, k: int)
    requires
        contributions_defined(m, denom, fold),
        running_sum(sorted, rows(m), sorted_row(m, denom, fold)),
        0 <= k < rows(m),
    ensures
        sorted[k] == ext_sum(sorted_accesses(m, k), access_term(denom, fold)),
    decreases k,
{
    if k > 0 {
        lemma_sorted_column_is_total(m, denom, fold, sorted, k - 1);
        assert(sorted_sum(m, k - 1, denom, fold, BUS_SLOTS as int) is Some);
        lemma_sorted_sum_is_total(m, k - 1, denom, fold, BUS_SLOTS as int);
        assert(sorted[k] == ext_add_spec(sorted[k - 1], sorted_row(m, denom, fold)(k - 1)));
        lemma_ext_sum_concat(
            sorted_accesses(m, k - 1),
            sorted_row_accesses(m, k - 1, BUS_SLOTS as int),
            access_term(denom, fold),
        );
    }
}

/// When the summed rows carry the same accesses on the bus as in the sorted
/// log, each equally often, the two permutation columns end on the same value:
/// the balance the last-row constraint checks.
pub proof fn law_permuted_accesses_balance(
    m: RowMajorMatrix,
    denom: Ext,
    fold: Ext,
    bus: Seq<Ext>,
    sorted: Seq<Ext>,
)
    requires
        contributions_defined(m, denom, fold),
        running_sum(bus, rows(m), bus_row(m, denom, fold)),
        running_sum(sorted, rows(m), sorted_row(m, denom, fold)),
        rows(m) > 0,
        bus_accesses(m, rows(m) - 1).to_multiset() == sorted_accesses(m, rows(m) - 1).to_multiset(),
    ensures
        bus[rows(m) - 1] == sorted[rows(m) - 1],
{
    lemma_bus_column_is_total(m, denom, fold, bus, rows(m) - 1);
    lemma_sorted_column_is_total(m, denom, fold, sorted, rows(m) - 1);
    lemma_ext_sum_permutation(bus_accesses(m, rows(m) - 1), sorted_accesses(m, rows(m) - 1), access_term(denom, fold));
}

} // verus!
