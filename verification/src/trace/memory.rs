//! The linear-memory access log: the one permutation-checked structure in the
//! trace.
//!
//! Operand-stack, locals, and globals accesses are static register-column
//! reads and writes and need no permutation argument. Linear memory is the only
//! genuinely dynamic addressing, so its accesses are collected into an
//! address-sorted log the prover permutes against the execution-order columns.

use vstd::prelude::*;
use crate::executor::record::{MemAccess, StepRecord};
use crate::trace::error::TraceError;
use crate::trace::sorting::{lemma_insert_at, lemma_sort_by_is_ordered_permutation, sort_by, total_preorder};

verus! {

/// A single linear-memory access in the address-sorted log.
#[derive(Clone, Copy, Debug, PartialEq, Eq, Structural)]
pub struct MemoryAccess {
    /// Effective byte address of the access.
    pub address: u64,
    /// Step (row index) at which the access occurred.
    pub step: usize,
    /// Little-endian value read or written, zero-extended to 64 bits.
    pub value: u64,
    /// Whether the access is a store (`true`) or a load (`false`).
    pub is_write: bool,
}

/// The log entry for access `a` made at `step`.
pub open spec fn entry_of(a: MemAccess, step: int) -> MemoryAccess {
    MemoryAccess { address: a.address, step: step as usize, value: a.value, is_write: a.store }
}

/// Every memory access of `records`, in execution order, each tagged with the
/// index of the record that made it.
pub open spec fn collected(records: Seq<StepRecord>) -> Seq<MemoryAccess>
    decreases records.len(),
{
    if records.len() == 0 {
        Seq::empty()
    } else {
        let step = records.len() - 1;
        collected(records.drop_last()) + records.last().memory@.map_values(|a: MemAccess| entry_of(a, step))
    }
}

/// Whether `x` comes no later than `y` in `(address, step)` order.
pub open spec fn key_le(x: MemoryAccess, y: MemoryAccess) -> bool {
    x.address < y.address || (x.address == y.address && x.step <= y.step)
}

/// Whether `log` is ordered by `(address, step)`.
pub open spec fn sorted_by_key(log: Seq<MemoryAccess>) -> bool {
    forall|i: int, j: int| 0 <= i < j < log.len() ==> key_le(#[trigger] log[i], #[trigger] log[j])
}

/// Whether the access at `i` is read-consistent with its predecessor: a load that
/// continues an address's run returns the value the previous access of that run
/// left there.
pub open spec fn consistent_at(log: Seq<MemoryAccess>, i: int) -> bool {
    log[i].address == log[i - 1].address && !log[i].is_write ==> log[i].value == log[i - 1].value
}

/// Whether every run of `log` is read-consistent.
pub open spec fn read_consistent(log: Seq<MemoryAccess>) -> bool {
    forall|i: int| 0 < i < log.len() ==> #[trigger] consistent_at(log, i)
}

/// Collects every linear-memory access from the record stream into a log sorted
/// by `(address, step)`---the order the permutation argument commits to. The
/// log holds exactly the accesses of the stream, each once.
pub fn access_log(records: &[StepRecord]) -> (log: Vec<MemoryAccess>)
    requires
        records@.len() <= usize::MAX,
    ensures
        log@ == sort_by(collected(records@), memory_order()),
        sorted_by_key(log@),
        log@.to_multiset() == collected(records@).to_multiset(),
{
    let mut all: Vec<MemoryAccess> = Vec::new();
    let mut step: usize = 0;
    while step < records.len()
        invariant
            step <= records@.len(),
            all@ == collected(records@.subrange(0, step as int)),
        decreases records.len() - step,
    {
        let record = &records[step];
        let ghost before = all@;
        let mut k: usize = 0;
        while k < record.memory.len()
            invariant
                k <= record.memory@.len(),
                all@ == before + record.memory@.subrange(0, k as int).map_values(
                    |a: MemAccess| entry_of(a, step as int),
                ),
            decreases record.memory.len() - k,
        {
            let access = record.memory[k];
            all.push(MemoryAccess { address: access.address, step, value: access.value, is_write: access.store });
            k = k + 1;
            assert(all@ =~= before + record.memory@.subrange(0, k as int).map_values(
                |a: MemAccess| entry_of(a, step as int),
            ));
        }
        let ghost next = records@.subrange(0, step + 1);
        assert(next.drop_last() =~= records@.subrange(0, step as int));
        assert(record.memory@.subrange(0, k as int) =~= record.memory@);
        step = step + 1;
    }
    assert(records@.subrange(0, records@.len() as int) =~= records@);
    let log = insertion_sort(all);
    proof {
        assert(total_preorder(memory_order()));
        lemma_sort_by_is_ordered_permutation(collected(records@), memory_order());
    }
    log
}

/// The `(address, step)` order of the memory log.
pub open spec fn memory_order() -> spec_fn(MemoryAccess, MemoryAccess) -> bool {
    |x: MemoryAccess, y: MemoryAccess| key_le(x, y)
}

/// Sorts `items` by `(address, step)`, keeping equal keys in their given order.
fn insertion_sort(items: Vec<MemoryAccess>) -> (out: Vec<MemoryAccess>)
    ensures
        out@ == sort_by(items@, memory_order()),
{
    let mut out: Vec<MemoryAccess> = Vec::new();
    let mut i: usize = 0;
    assert(items@.subrange(0, 0) =~= Seq::<MemoryAccess>::empty());
    while i < items.len()
        invariant
            i <= items@.len(),
            out@ == sort_by(items@.subrange(0, i as int), memory_order()),
        decreases items.len() - i,
    {
        let x = items[i];
        let mut k: usize = out.len();
        while k > 0 && !key_le_exec(&out[k - 1], &x)
            invariant
                k <= out@.len(),
                forall|j: int| k <= j < out@.len() ==> !memory_order()(#[trigger] out@[j], x),
            decreases k,
        {
            k = k - 1;
        }
        proof {
            lemma_insert_at(out@, x, k as int, memory_order());
            assert(items@.subrange(0, i + 1).drop_last() =~= items@.subrange(0, i as int));
        }
        out.insert(k, x);
        i = i + 1;
    }
    assert(items@.subrange(0, items@.len() as int) =~= items@);
    out
}

fn key_le_exec(x: &MemoryAccess, y: &MemoryAccess) -> (r: bool)
    ensures
        r == key_le(*x, *y),
{
    x.address < y.address || (x.address == y.address && x.step <= y.step)
}

/// Verifies read-consistency over the address-sorted log: within each address's
/// run, every load returns the value established by the most recent store (or the
/// run's first entry). A correct executor always satisfies this. The error names
/// the first load that disagrees.
pub fn validate(log: &[MemoryAccess]) -> (r: Result<(), TraceError>)
    ensures
        read_consistent(log@) <==> r is Ok,
        r matches Err(e) ==> exists|i: int|
            0 < i < log@.len() && !consistent_at(log@, i) && (forall|j: int| 0 < j < i ==> consistent_at(log@, j))
                && e == (TraceError::MemoryInconsistent { address: log@[i].address, step: log@[i].step }),
{
    let mut i: usize = 1;
    while i < log.len()
        invariant
            1 <= i,
            forall|j: int| 0 < j < i && j < log@.len() ==> #[trigger] consistent_at(log@, j),
        decreases log.len() - i,
    {
        let prev = log[i - 1];
        let next = log[i];
        if next.address == prev.address && !next.is_write && next.value != prev.value {
            assert(!consistent_at(log@, i as int));
            return Err(TraceError::MemoryInconsistent { address: next.address, step: next.step });
        }
        assert(consistent_at(log@, i as int));
        i = i + 1;
    }
    Ok(())
}

} // verus!
