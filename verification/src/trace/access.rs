//! The unified access log: the executor -> prover artifact.
//!
//! Every operator's effect on the machine is a sequence of reads and writes over
//! one flat address space that holds the operand stack, locals, globals, and
//! linear memory alike. The log records those accesses in execution order on a
//! fixed-width value bus and, alongside, the same accesses sorted by address then
//! time. The sorted view must be internally consistent: every read returns the
//! value the previous access to its address left.

use vstd::prelude::*;
use crate::decoder::types::word_bits;
use crate::executor::record::{MemAccess, RegAccess, StepRecord, Transition};
use crate::lift::program::{LiftedFunction, LiftedProgram, Register};
use crate::trace::error::TraceError;
use crate::trace::frame::{ExecFrame, register_offset, resolve_register};
use crate::trace::layout::{BUS_SLOTS, REGISTER_REGION};
use crate::trace::sorting::{
    lemma_insert_at, lemma_sort_by_is_ordered_permutation, ordered_by, sort_by, total_preorder,
};

verus! {

/// One access on the unified log: an address, the timestamp at which it
/// happened, the accessed value's two 32-bit limbs, and whether it was a write.
#[derive(Clone, Copy, Debug, PartialEq, Eq, Structural)]
pub struct Access {
    /// Address in the unified space.
    pub address: u64,
    /// `step * BUS_SLOTS + slot`: the access's position on the value bus.
    pub timestamp: u64,
    /// Low 32-bit limb of the accessed value.
    pub lo: u64,
    /// High 32-bit limb of the accessed value.
    pub hi: u64,
    /// Whether the access is a write.
    pub is_write: bool,
}

/// The low 32-bit limb of `v`.
pub open spec fn low_limb(v: u64) -> u64 {
    (v as int % 0x1_0000_0000) as u64
}

/// The high 32-bit limb of `v`.
pub open spec fn high_limb(v: u64) -> u64 {
    (v as int / 0x1_0000_0000) as u64
}

/// The unstamped log entry of a register access.
pub open spec fn register_entry(a: RegAccess, frame: ExecFrame, is_write: bool) -> Access {
    Access {
        address: (REGISTER_REGION + register_offset(a.reg, frame)) as u64,
        timestamp: 0,
        lo: low_limb(word_bits(a.value)),
        hi: high_limb(word_bits(a.value)),
        is_write,
    }
}

/// The unstamped log entry of a linear-memory access.
pub open spec fn memory_entry(m: MemAccess) -> Access {
    Access { address: m.address, timestamp: 0, lo: low_limb(m.value), hi: high_limb(m.value), is_write: m.store }
}

/// The accesses of one record in bus order: its register reads, then its
/// memory accesses, then its register writes.
pub open spec fn row_entries(record: StepRecord, frame: ExecFrame) -> Seq<Access> {
    record.reads@.map_values(|a: RegAccess| register_entry(a, frame, false)) + record.memory@.map_values(
        |m: MemAccess| memory_entry(m),
    ) + record.writes@.map_values(|a: RegAccess| register_entry(a, frame, true))
}

/// `entries` laid on the bus of row `step`: slot `k` carries timestamp
/// `step * BUS_SLOTS + k`.
pub open spec fn stamped(entries: Seq<Access>, step: int) -> Seq<Access> {
    entries.map(
        |k: int, a: Access|
            Access {
                address: a.address,
                timestamp: (step * BUS_SLOTS + k) as u64,
                lo: a.lo,
                hi: a.hi,
                is_write: a.is_write,
            },
    )
}

/// Whether a register access falls outside the frame's register file.
pub open spec fn out_of_frame(a: RegAccess, frame: ExecFrame) -> bool {
    register_offset(a.reg, frame) >= frame.width
}

/// The register accesses of a record that are resolved to addresses, in the
/// order they are resolved: reads, then writes.
pub open spec fn registers_of(record: StepRecord) -> Seq<RegAccess> {
    record.reads@ + record.writes@
}

/// Whether some access of `regs` falls outside the frame.
pub open spec fn any_out_of_frame(regs: Seq<RegAccess>, frame: ExecFrame) -> bool {
    exists|i: int| 0 <= i < regs.len() && #[trigger] out_of_frame(regs[i], frame)
}

/// The position of the first access of `regs` outside the frame.
pub open spec fn first_out_of_frame(regs: Seq<RegAccess>, frame: ExecFrame) -> int {
    choose|i: int|
        0 <= i < regs.len() && #[trigger] out_of_frame(regs[i], frame) && forall|j: int|
            0 <= j < i ==> !out_of_frame(#[trigger] regs[j], frame)
}

/// The bus row of record `step`: the first register outside the frame is an
/// error, more accesses than the bus holds are an error, and otherwise the
/// row's accesses are stamped with their bus positions.
pub open spec fn row_spec(record: StepRecord, frame: ExecFrame, step: int) -> Result<Seq<Access>, TraceError> {
    let regs = registers_of(record);
    let entries = row_entries(record, frame);
    if any_out_of_frame(regs, frame) {
        Err(TraceError::RegisterOutOfRange { register: regs[first_out_of_frame(regs, frame)].reg, width: frame.width })
    } else if entries.len() > BUS_SLOTS {
        Err(TraceError::AccessOverflow { step: step as usize, count: entries.len() as usize })
    } else {
        Ok(stamped(entries, step))
    }
}

/// A log result taken by its view.
pub open spec fn log_view(r: Result<Vec<Access>, TraceError>) -> Result<Seq<Access>, TraceError> {
    match r {
        Ok(v) => Ok(v@),
        Err(e) => Err(e),
    }
}

/// The limbs of a 64-bit value.
fn limbs_of(v: u64) -> (r: (u64, u64))
    ensures
        r.0 == low_limb(v),
        r.1 == high_limb(v),
{
    assert(v & 0xFFFF_FFFF == v % 0x1_0000_0000) by (bit_vector);
    assert(v >> 32 == v / 0x1_0000_0000) by (bit_vector);
    (v & 0xFFFF_FFFF, v >> 32)
}

/// The log entry of register access `a`, or the error naming its register
/// when it lies outside the frame.
fn register_access(a: RegAccess, frame: ExecFrame, is_write: bool) -> (r: Result<Access, TraceError>)
    requires
        REGISTER_REGION + frame.width <= u64::MAX,
    ensures
        !out_of_frame(a, frame) ==> r == Ok::<Access, TraceError>(register_entry(a, frame, is_write)),
        out_of_frame(a, frame) ==> r == Err::<Access, TraceError>(
            TraceError::RegisterOutOfRange { register: a.reg, width: frame.width },
        ),
{
    let offset = resolve_register(a.reg, frame)?;
    let bits = match a.value {
        crate::decoder::types::Word::I32(b) => b as u64,
        crate::decoder::types::Word::I64(b) => b,
    };
    let (lo, hi) = limbs_of(bits);
    Ok(Access { address: REGISTER_REGION + offset as u64, timestamp: 0, lo, hi, is_write })
}

/// The first register access of `regs` outside the frame is the one at `i`
/// when every earlier one lies inside it.
proof fn lemma_first_out_of_frame(regs: Seq<RegAccess>, frame: ExecFrame, i: int)
    requires
        0 <= i < regs.len(),
        out_of_frame(regs[i], frame),
        forall|j: int| 0 <= j < i ==> !out_of_frame(#[trigger] regs[j], frame),
    ensures
        any_out_of_frame(regs, frame),
        first_out_of_frame(regs, frame) == i,
{
    let c = first_out_of_frame(regs, frame);
    assert(out_of_frame(regs[i], frame));
    if c < i {
        assert(!out_of_frame(regs[c], frame));
    } else if c > i {
        assert(!out_of_frame(regs[i], frame));
    }
}

/// The accesses record `step` places on the value bus: its register reads,
/// its memory accesses, then its register writes, each stamped with its bus
/// position `step * BUS_SLOTS + slot`.
pub fn row_accesses(step: usize, record: &StepRecord, frame: ExecFrame) -> (r: Result<Vec<Access>, TraceError>)
    requires
        REGISTER_REGION + frame.width <= u64::MAX,
        (step + 1) * BUS_SLOTS <= usize::MAX,
    ensures
        log_view(r) == row_spec(*record, frame, step as int),
{
    let ghost regs = registers_of(*record);
    let ghost reads_seq = record.reads@.map_values(|a: RegAccess| register_entry(a, frame, false));
    let ghost mem_seq = record.memory@.map_values(|m: MemAccess| memory_entry(m));
    let ghost writes_seq = record.writes@.map_values(|a: RegAccess| register_entry(a, frame, true));
    let mut entries: Vec<Access> = Vec::new();
    let mut i: usize = 0;
    while i < record.reads.len()
        invariant
            i <= record.reads@.len(),
            REGISTER_REGION + frame.width <= u64::MAX,
            regs == registers_of(*record),
            reads_seq == record.reads@.map_values(|a: RegAccess| register_entry(a, frame, false)),
            entries@ == reads_seq.subrange(0, i as int),
            forall|j: int| 0 <= j < i ==> !out_of_frame(#[trigger] regs[j], frame),
        decreases record.reads.len() - i,
    {
        let a = record.reads[i];
        assert(regs[i as int] == a);
        match register_access(a, frame, false) {
            Ok(entry) => {
                entries.push(entry);
            },
            Err(e) => {
                proof {
                    lemma_first_out_of_frame(regs, frame, i as int);
                }
                return Err(e);
            },
        }
        i = i + 1;
        assert(entries@ =~= reads_seq.subrange(0, i as int));
    }
    let mut k: usize = 0;
    while k < record.memory.len()
        invariant
            k <= record.memory@.len(),
            i == record.reads@.len(),
            mem_seq == record.memory@.map_values(|m: MemAccess| memory_entry(m)),
            entries@ == reads_seq + mem_seq.subrange(0, k as int),
        decreases record.memory.len() - k,
    {
        let m = record.memory[k];
        let (lo, hi) = limbs_of(m.value);
        entries.push(Access { address: m.address, timestamp: 0, lo, hi, is_write: m.store });
        k = k + 1;
        assert(entries@ =~= reads_seq + mem_seq.subrange(0, k as int));
    }
    assert(mem_seq.subrange(0, k as int) =~= mem_seq);
    let mut w: usize = 0;
    while w < record.writes.len()
        invariant
            w <= record.writes@.len(),
            REGISTER_REGION + frame.width <= u64::MAX,
            regs == registers_of(*record),
            writes_seq == record.writes@.map_values(|a: RegAccess| register_entry(a, frame, true)),
            entries@ == reads_seq + mem_seq + writes_seq.subrange(0, w as int),
            forall|j: int| 0 <= j < record.reads@.len() + w ==> !out_of_frame(#[trigger] regs[j], frame),
        decreases record.writes.len() - w,
    {
        let a = record.writes[w];
        assert(regs[record.reads@.len() + w] == a);
        match register_access(a, frame, true) {
            Ok(entry) => {
                entries.push(entry);
            },
            Err(e) => {
                proof {
                    lemma_first_out_of_frame(regs, frame, record.reads@.len() + w);
                }
                return Err(e);
            },
        }
        w = w + 1;
        assert(entries@ =~= reads_seq + mem_seq + writes_seq.subrange(0, w as int));
    }
    assert(writes_seq.subrange(0, w as int) =~= writes_seq);
    assert(entries@ == row_entries(*record, frame));
    assert(!any_out_of_frame(regs, frame)) by {
        if any_out_of_frame(regs, frame) {
            let j = choose|j: int| 0 <= j < regs.len() && #[trigger] out_of_frame(regs[j], frame);
            assert(!out_of_frame(regs[j], frame));
        }
    }
    if entries.len() > BUS_SLOTS {
        return Err(TraceError::AccessOverflow { step, count: entries.len() });
    }
    let base = (step * BUS_SLOTS) as u64;
    let mut out: Vec<Access> = Vec::new();
    let mut slot: usize = 0;
    while slot < entries.len()
        invariant
            slot <= entries@.len(),
            entries@.len() <= BUS_SLOTS,
            base == step * BUS_SLOTS,
            (step + 1) * BUS_SLOTS <= usize::MAX,
            out@ == stamped(entries@, step as int).subrange(0, slot as int),
        decreases entries.len() - slot,
    {
        let e = entries[slot];
        out.push(Access { address: e.address, timestamp: base + slot as u64, lo: e.lo, hi: e.hi, is_write: e.is_write });
        slot = slot + 1;
        assert(out@ =~= stamped(entries@, step as int).subrange(0, slot as int));
    }
    assert(out@ =~= stamped(entries@, step as int));
    Ok(out)
}

/// The unified log of `records`: each record's bus row in execution order; the
/// first record whose row fails decides the error.
pub open spec fn stream_spec(records: Seq<StepRecord>, frame: ExecFrame) -> Result<Seq<Access>, TraceError>
    decreases records.len(),
{
    if records.len() == 0 {
        Ok(Seq::empty())
    } else {
        match stream_spec(records.drop_last(), frame) {
            Err(e) => Err(e),
            Ok(s) => match row_spec(records.last(), frame, records.len() - 1) {
                Err(e) => Err(e),
                Ok(row) => Ok(s + row),
            },
        }
    }
}

/// Once a prefix of the stream has failed, every longer prefix fails the same
/// way.
proof fn lemma_stream_error_persists(records: Seq<StepRecord>, frame: ExecFrame, k: int, n: int, e: TraceError)
    requires
        0 <= k <= n <= records.len(),
        stream_spec(records.subrange(0, k), frame) == Err::<Seq<Access>, TraceError>(e),
    ensures
        stream_spec(records.subrange(0, n), frame) == Err::<Seq<Access>, TraceError>(e),
    decreases n - k,
{
    if n > k {
        lemma_stream_error_persists(records, frame, k, n - 1, e);
        assert(records.subrange(0, n).drop_last() =~= records.subrange(0, n - 1));
    }
}

/// Collects every record's bus row, in execution order, into the unified log.
pub fn access_stream(records: &[StepRecord], frame: ExecFrame) -> (r: Result<Vec<Access>, TraceError>)
    requires
        REGISTER_REGION + frame.width <= u64::MAX,
        records@.len() * BUS_SLOTS <= usize::MAX,
    ensures
        log_view(r) == stream_spec(records@, frame),
{
    let mut log: Vec<Access> = Vec::new();
    let mut step: usize = 0;
    assert(records@.subrange(0, 0) =~= Seq::<StepRecord>::empty());
    while step < records.len()
        invariant
            step <= records@.len(),
            REGISTER_REGION + frame.width <= u64::MAX,
            records@.len() * BUS_SLOTS <= usize::MAX,
            stream_spec(records@.subrange(0, step as int), frame) == Ok::<Seq<Access>, TraceError>(log@),
        decreases records.len() - step,
    {
        let ghost before = log@;
        assert(records@.subrange(0, step + 1).drop_last() =~= records@.subrange(0, step as int));
        match row_accesses(step, &records[step], frame) {
            Ok(row) => {
                let mut k: usize = 0;
                while k < row.len()
                    invariant
                        k <= row@.len(),
                        log@ == before + row@.subrange(0, k as int),
                    decreases row.len() - k,
                {
                    log.push(row[k]);
                    k = k + 1;
                    assert(log@ =~= before + row@.subrange(0, k as int));
                }
                assert(row@.subrange(0, k as int) =~= row@);
            },
            Err(e) => {
                proof {
                    lemma_stream_error_persists(records@, frame, step + 1, records@.len() as int, e);
                    assert(records@.subrange(0, records@.len() as int) =~= records@);
                }
                return Err(e);
            },
        }
        step = step + 1;
    }
    assert(records@.subrange(0, records@.len() as int) =~= records@);
    Ok(log)
}

/// Every access of the unified log carries a distinct timestamp: timestamps
/// strictly increase along the log and stay below `records.len() * BUS_SLOTS`,
/// so no two accesses share an `(address, timestamp)` key.
pub proof fn law_stream_timestamps_increase(records: Seq<StepRecord>, frame: ExecFrame)
    requires
        records.len() * BUS_SLOTS <= usize::MAX,
    ensures
        stream_spec(records, frame) matches Ok(s) ==> {
            &&& forall|i: int, j: int| 0 <= i < j < s.len() ==> #[trigger] s[i].timestamp < #[trigger] s[j].timestamp
            &&& forall|i: int| 0 <= i < s.len() ==> #[trigger] s[i].timestamp < records.len() * BUS_SLOTS
        },
    decreases records.len(),
{
    if records.len() > 0 {
        let n = records.len() - 1;
        law_stream_timestamps_increase(records.drop_last(), frame);
        if let Ok(prefix) = stream_spec(records.drop_last(), frame) {
            if let Ok(row) = row_spec(records.last(), frame, n) {
                let s = prefix + row;
                let entries = row_entries(records.last(), frame);
                assert(row == stamped(entries, n));
                assert(entries.len() <= BUS_SLOTS);
                assert forall|k: int| 0 <= k < row.len() implies #[trigger] row[k].timestamp == n * BUS_SLOTS + k by {
                    assert(n * BUS_SLOTS + k < records.len() * BUS_SLOTS);
                }
                assert forall|i: int| 0 <= i < s.len() implies #[trigger] s[i].timestamp < records.len() * BUS_SLOTS by {
                    if i >= prefix.len() {
                        assert(s[i] == row[i - prefix.len()]);
                    } else {
                        assert(s[i] == prefix[i]);
                    }
                }
                assert forall|i: int, j: int| 0 <= i < j < s.len() implies #[trigger] s[i].timestamp
                    < #[trigger] s[j].timestamp by {
                    if j < prefix.len() {
                        assert(s[i] == prefix[i] && s[j] == prefix[j]);
                    } else if i < prefix.len() {
                        assert(s[i] == prefix[i] && s[j] == row[j - prefix.len()]);
                        assert(prefix[i].timestamp < n * BUS_SLOTS);
                    } else {
                        assert(s[i] == row[i - prefix.len()] && s[j] == row[j - prefix.len()]);
                    }
                }
            }
        }
    }
}

/// Whether `x` comes no later than `y` in `(address, timestamp)` order.
pub open spec fn key_before(x: Access, y: Access) -> bool {
    x.address < y.address || (x.address == y.address && x.timestamp <= y.timestamp)
}

/// The `(address, timestamp)` order of the unified log.
pub open spec fn access_order() -> spec_fn(Access, Access) -> bool {
    |x: Access, y: Access| key_before(x, y)
}

/// The unified log sorted by `(address, timestamp)`, stably.
pub open spec fn sort_by_key(s: Seq<Access>) -> Seq<Access> {
    sort_by(s, access_order())
}

/// Whether the access at `i` agrees with its predecessor: a read that continues
/// an address's run returns the limbs the previous access of the run carried.
pub open spec fn agrees_at(log: Seq<Access>, i: int) -> bool {
    log[i].address == log[i - 1].address && !log[i].is_write ==> log[i].lo == log[i - 1].lo && log[i].hi
        == log[i - 1].hi
}

/// Whether every read of `log` agrees with its predecessor.
pub open spec fn log_consistent(log: Seq<Access>) -> bool {
    forall|i: int| 0 < i < log.len() ==> #[trigger] agrees_at(log, i)
}

/// The sorted log is ordered by `(address, timestamp)` and holds exactly the
/// accesses of the stream, each as often as the stream does.
pub proof fn law_sorted_log_is_ordered_permutation(s: Seq<Access>)
    ensures
        ordered_by(sort_by_key(s), access_order()),
        sort_by_key(s).to_multiset() == s.to_multiset(),
{
    assert(total_preorder(access_order()));
    lemma_sort_by_is_ordered_permutation(s, access_order());
}

/// Whether `x` comes no later than `y` in `(address, timestamp)` order.
fn key_before_exec(x: &Access, y: &Access) -> (r: bool)
    ensures
        r == key_before(*x, *y),
{
    x.address < y.address || (x.address == y.address && x.timestamp <= y.timestamp)
}

/// `items` sorted by `(address, timestamp)`, equal keys in their given order.
pub(crate) fn sort_accesses(items: &[Access]) -> (out: Vec<Access>)
    ensures
        out@ == sort_by_key(items@),
{
    let mut out: Vec<Access> = Vec::new();
    let mut i: usize = 0;
    assert(items@.subrange(0, 0) =~= Seq::<Access>::empty());
    while i < items.len()
        invariant
            i <= items@.len(),
            out@ == sort_by_key(items@.subrange(0, i as int)),
        decreases items.len() - i,
    {
        let x = items[i];
        let mut k: usize = out.len();
        while k > 0 && !key_before_exec(&out[k - 1], &x)
            invariant
                k <= out@.len(),
                forall|j: int| k <= j < out@.len() ==> !access_order()(#[trigger] out@[j], x),
            decreases k,
        {
            k = k - 1;
        }
        proof {
            lemma_insert_at(out@, x, k as int, access_order());
            assert(items@.subrange(0, i + 1).drop_last() =~= items@.subrange(0, i as int));
        }
        out.insert(k, x);
        i = i + 1;
    }
    assert(items@.subrange(0, items@.len() as int) =~= items@);
    out
}

/// The position of the first read of `log` that disagrees with its
/// predecessor.
pub open spec fn first_disagreement(log: Seq<Access>) -> int {
    choose|i: int| 0 < i < log.len() && !#[trigger] agrees_at(log, i) && forall|j: int| 0 < j < i ==> #[trigger] agrees_at(log, j)
}

/// The verdict on a unified log: consistent once sorted by address then time,
/// or an error naming the first disagreeing read and the step its timestamp
/// belongs to.
pub open spec fn validate_spec(accesses: Seq<Access>) -> Result<(), TraceError> {
    let s = sort_by_key(accesses);
    if log_consistent(s) {
        Ok(())
    } else {
        let i = first_disagreement(s);
        Err(
            TraceError::AccessInconsistent {
                address: s[i].address,
                step: #[verifier::truncate] ((s[i].timestamp / (BUS_SLOTS as u64)) as usize),
            },
        )
    }
}

/// The first disagreeing read of `log` is the one at `i` when every earlier
/// read agrees.
proof fn lemma_first_disagreement(log: Seq<Access>, i: int)
    requires
        0 < i < log.len(),
        !agrees_at(log, i),
        forall|j: int| 0 < j < i ==> #[trigger] agrees_at(log, j),
    ensures
        !log_consistent(log),
        first_disagreement(log) == i,
{
    let c = first_disagreement(log);
    assert(!agrees_at(log, i));
    if c < i {
        assert(agrees_at(log, c));
    } else if c > i {
        assert(agrees_at(log, i));
    }
}

/// Verifies read-consistency of the unified log: sorted by address then time,
/// every read returns the limbs the previous access to its address carried.
/// The error names the first read, in sorted order, that disagrees, and the
/// step its timestamp belongs to.
pub fn validate(accesses: &[Access]) -> (r: Result<(), TraceError>)
    ensures
        r == validate_spec(accesses@),
{
    let sorted = sort_accesses(accesses);
    let ghost s = sorted@;
    let mut i: usize = 1;
    while i < sorted.len()
        invariant
            1 <= i,
            s == sorted@,
            s == sort_by_key(accesses@),
            forall|j: int| 0 < j < i && j < s.len() ==> #[trigger] agrees_at(s, j),
        decreases sorted.len() - i,
    {
        let prev = sorted[i - 1];
        let cur = sorted[i];
        if cur.address == prev.address && !cur.is_write && (cur.lo != prev.lo || cur.hi != prev.hi) {
            let step = #[verifier::truncate] ((cur.timestamp / (BUS_SLOTS as u64)) as usize);
            proof {
                lemma_first_disagreement(s, i as int);
            }
            return Err(TraceError::AccessInconsistent { address: cur.address, step });
        }
        assert(agrees_at(s, i as int));
        i = i + 1;
    }
    Ok(())
}

/// The frame dimensions of a lifted function.
pub open spec fn frame_of(f: LiftedFunction) -> ExecFrame {
    ExecFrame { locals: f.locals_count as usize, globals: f.globals_count as usize, width: f.reg_file_width as usize }
}

/// Whether every record executes in the first record's function and none of
/// them calls into another defined function.
pub open spec fn single_frame(records: Seq<StepRecord>) -> bool {
    forall|i: int|
        0 <= i < records.len() ==> (#[trigger] records[i]).func_index == records[0].func_index
            && !(records[i].transition is Call)
}

/// Whether `functions` holds a lifted function with index `func_index`.
pub open spec fn has_function(functions: Seq<LiftedFunction>, func_index: u32) -> bool {
    exists|i: int| 0 <= i < functions.len() && (#[trigger] functions[i]).func_index == func_index
}

/// The position of the first lifted function with index `func_index`.
pub open spec fn first_function(functions: Seq<LiftedFunction>, func_index: u32) -> int {
    choose|i: int|
        0 <= i < functions.len() && (#[trigger] functions[i]).func_index == func_index && forall|j: int|
            0 <= j < i ==> (#[trigger] functions[j]).func_index != func_index
}

/// What a single-frame execution's records give the trace: the executing
/// function's frame and its unified access log, which must be read-consistent.
/// An empty stream, a stream that crosses frames, and a function the schedule
/// does not know are refused first, in that order.
pub open spec fn execution_log_spec(functions: Seq<LiftedFunction>, records: Seq<StepRecord>) -> Result<
    (ExecFrame, Seq<Access>),
    TraceError,
> {
    if records.len() == 0 {
        Err(TraceError::EmptyExecution)
    } else if !single_frame(records) {
        Err(TraceError::UnsupportedCall)
    } else if !has_function(functions, records[0].func_index) {
        Err(TraceError::InconsistentSchedule { func_index: records[0].func_index })
    } else {
        let frame = frame_of(functions[first_function(functions, records[0].func_index)]);
        match stream_spec(records, frame) {
            Err(e) => Err(e),
            Ok(log) => match validate_spec(log) {
                Err(e) => Err(e),
                Ok(_) => Ok((frame, log)),
            },
        }
    }
}

/// The executing function's frame and the read-consistent unified access log
/// of a single-frame execution: the part of building a trace that decides
/// whether the record stream can be traced at all.
pub fn execution_log(program: &LiftedProgram, records: &[StepRecord]) -> (r: Result<(ExecFrame, Vec<Access>), TraceError>)
    requires
        records@.len() * BUS_SLOTS <= usize::MAX,
    ensures
        match r {
            Ok((frame, log)) => execution_log_spec(program.functions@, records@) == Ok::<
                (ExecFrame, Seq<Access>),
                TraceError,
            >((frame, log@)),
            Err(e) => execution_log_spec(program.functions@, records@) == Err::<(ExecFrame, Seq<Access>), TraceError>(e),
        },
{
    if records.len() == 0 {
        return Err(TraceError::EmptyExecution);
    }
    let func_index = records[0].func_index;
    let mut i: usize = 0;
    while i < records.len()
        invariant
            0 < records@.len(),
            func_index == records@[0].func_index,
            i <= records@.len(),
            forall|j: int|
                0 <= j < i ==> (#[trigger] records@[j]).func_index == func_index && !(records@[j].transition is Call),
        decreases records.len() - i,
    {
        if records[i].func_index != func_index {
            return Err(TraceError::UnsupportedCall);
        }
        if let Transition::Call { .. } = records[i].transition {
            return Err(TraceError::UnsupportedCall);
        }
        i = i + 1;
    }
    let mut f: usize = 0;
    while f < program.functions.len()
        invariant
            f <= program.functions@.len(),
            forall|j: int| 0 <= j < f ==> (#[trigger] program.functions@[j]).func_index != func_index,
        ensures
            f <= program.functions@.len(),
            forall|j: int| 0 <= j < f ==> (#[trigger] program.functions@[j]).func_index != func_index,
            f < program.functions@.len() ==> program.functions@[f as int].func_index == func_index,
        decreases program.functions.len() - f,
    {
        if program.functions[f].func_index == func_index {
            break;
        }
        f = f + 1;
    }
    if f == program.functions.len() {
        assert(!has_function(program.functions@, func_index)) by {
            if has_function(program.functions@, func_index) {
                let j = choose|j: int| 0 <= j < program.functions@.len() && (#[trigger] program.functions@[j]).func_index == func_index;
                assert(program.functions@[j].func_index != func_index);
            }
        }
        return Err(TraceError::InconsistentSchedule { func_index });
    }
    let func = &program.functions[f];
    proof {
        let fs = program.functions@;
        assert(fs[f as int].func_index == func_index);
        let c = first_function(fs, func_index);
        if c < f {
            assert(fs[c].func_index != func_index);
        } else if c > f {
            assert(fs[f as int].func_index != func_index);
        }
    }
    let frame = ExecFrame::of(func);
    assert(frame == frame_of(program.functions@[f as int]));
    let log = access_stream(records, frame)?;
    validate(&log)?;
    Ok((frame, log))
}

/// Whether a register access names a local or global slot.
pub open spec fn names_slot(a: RegAccess) -> bool {
    a.reg is Local || a.reg is Global
}

/// Whether some access of `regs` names a local or global slot.
pub open spec fn any_slot(regs: Seq<RegAccess>) -> bool {
    exists|i: int| 0 <= i < regs.len() && #[trigger] names_slot(regs[i])
}

/// The position of the first access of `regs` that names a local or global slot.
pub open spec fn first_slot(regs: Seq<RegAccess>) -> int {
    choose|i: int|
        0 <= i < regs.len() && #[trigger] names_slot(regs[i]) && forall|j: int| 0 <= j < i ==> !names_slot(#[trigger] regs[j])
}

/// The register-file offset of the first local or global slot a record
/// touches (reads first, then writes), zero when it touches none; that slot
/// must lie inside the frame.
pub open spec fn immediate_spec(record: StepRecord, frame: ExecFrame) -> Result<u64, TraceError> {
    let regs = registers_of(record);
    if !any_slot(regs) {
        Ok(0)
    } else {
        let a = regs[first_slot(regs)];
        if out_of_frame(a, frame) {
            Err(TraceError::RegisterOutOfRange { register: a.reg, width: frame.width })
        } else {
            Ok(register_offset(a.reg, frame) as u64)
        }
    }
}

/// The first slot of `regs` that names a local or global is the one at `i`
/// when no earlier one does.
proof fn lemma_first_slot(regs: Seq<RegAccess>, i: int)
    requires
        0 <= i < regs.len(),
        names_slot(regs[i]),
        forall|j: int| 0 <= j < i ==> !names_slot(#[trigger] regs[j]),
    ensures
        any_slot(regs),
        first_slot(regs) == i,
{
    let c = first_slot(regs);
    assert(names_slot(regs[i]));
    if c < i {
        assert(!names_slot(regs[c]));
    } else if c > i {
        assert(!names_slot(regs[i]));
    }
}

/// The register-file offset the row's immediate column carries: that of the
/// first local or global slot the record reads or writes, or zero.
pub fn immediate_offset(record: &StepRecord, frame: ExecFrame) -> (r: Result<u64, TraceError>)
    ensures
        r == immediate_spec(*record, frame),
{
    let ghost regs = registers_of(*record);
    let mut i: usize = 0;
    while i < record.reads.len()
        invariant
            regs == registers_of(*record),
            i <= record.reads@.len(),
            forall|j: int| 0 <= j < i ==> !names_slot(#[trigger] regs[j]),
        decreases record.reads.len() - i,
    {
        let a = record.reads[i];
        assert(regs[i as int] == a);
        if let Register::Stack(_) = a.reg {
        } else {
            proof {
                lemma_first_slot(regs, i as int);
            }
            let offset = resolve_register(a.reg, frame)?;
            return Ok(offset as u64);
        }
        i = i + 1;
    }
    let mut w: usize = 0;
    while w < record.writes.len()
        invariant
            regs == registers_of(*record),
            w <= record.writes@.len(),
            forall|j: int| 0 <= j < record.reads@.len() + w ==> !names_slot(#[trigger] regs[j]),
        decreases record.writes.len() - w,
    {
        let a = record.writes[w];
        assert(regs[record.reads@.len() + w] == a);
        if let Register::Stack(_) = a.reg {
        } else {
            proof {
                lemma_first_slot(regs, record.reads@.len() + w);
            }
            let offset = resolve_register(a.reg, frame)?;
            return Ok(offset as u64);
        }
        w = w + 1;
    }
    assert(!any_slot(regs)) by {
        if any_slot(regs) {
            let j = choose|j: int| 0 <= j < regs.len() && #[trigger] names_slot(regs[j]);
            assert(!names_slot(regs[j]));
        }
    }
    Ok(0)
}

/// A unified log validates exactly when, sorted by address then time, every
/// read that continues an address's run returns both limbs of the value the
/// previous access of that address carried.
pub proof fn law_validated_reads_return_the_whole_value(accesses: Seq<Access>)
    ensures
        validate_spec(accesses) is Ok <==> forall|i: int|
            0 < i < sort_by_key(accesses).len() && #[trigger] sort_by_key(accesses)[i].address == sort_by_key(accesses)[i
                - 1].address && !sort_by_key(accesses)[i].is_write ==> sort_by_key(accesses)[i].lo == sort_by_key(
                accesses,
            )[i - 1].lo && sort_by_key(accesses)[i].hi == sort_by_key(accesses)[i - 1].hi,
{
    let s = sort_by_key(accesses);
    if log_consistent(s) {
        assert forall|i: int|
            0 < i < s.len() && #[trigger] s[i].address == s[i - 1].address && !s[i].is_write implies s[i].lo == s[i - 1].lo
                && s[i].hi == s[i - 1].hi by {
            assert(agrees_at(s, i));
        }
    } else {
        let i = choose|i: int| 0 < i < s.len() && !#[trigger] agrees_at(s, i);
        assert(!agrees_at(s, i));
    }
}

} // verus!
