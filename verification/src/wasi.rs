//! Deterministic minimal `wasi_snapshot_preview1` for the Ananse zkVM.
//!
//! Ananse forbids nondeterministic syscalls, so its WASI surface is exactly the
//! functions whose behaviour is a pure function of the guest's own linear memory:
//! `fd_write` and `proc_exit`. Every other WASI import is rejected by the
//! decoder at validation time.
//!
//! [`WasiSnapshotPreview1`] never touches an operating-system file descriptor.
//! `fd_write` gathers the bytes the guest points at and appends them to an
//! in-memory journal the caller reads after the run; `proc_exit` halts the
//! program with its status code through [`HostAction::Exit`].

use vstd::prelude::*;
use crate::decoder::WASI_MODULE;
use crate::decoder::types::{ImportEntry, Word, word_bits};
use crate::executor::error::ExecuteError;
use crate::executor::host::{Host, HostAction, HostAnswer};
use crate::executor::runtime::memory::{le_bytes, le_value, overwrite, pow256};

use crate::cli::text::{append, append_decimal, decimal, string_of};

verus! {

/// The WASI success `errno`, returned to the guest by a completed `fd_write`.
pub const ERRNO_SUCCESS: u32 = 0;

/// Bytes per `ciovec`: a `(buf: u32, buf_len: u32)` little-endian pair.
const CIOVEC_LEN: u64 = 8;

/// The `(buf, buf_len)` pair of the `ciovec` at byte `at`, if it lies in memory.
pub open spec fn ciovec_at(mem: Seq<u8>, at: int) -> Option<(nat, nat)> {
    if 0 <= at && at + 8 <= mem.len() {
        Some((le_value(mem.subrange(at, at + 4)), le_value(mem.subrange(at + 4, at + 8))))
    } else {
        None
    }
}

/// Gathers the first `n` `ciovec`s of the array at `base`, in order, stopping
/// at the first one that fails: the bytes appended so far, their running total,
/// and whether every step so far succeeded. A step fails when its `ciovec` or
/// its buffer lies outside memory, or when the running total leaves `u32`; in
/// the last case the buffer's bytes have already been appended.
pub open spec fn gather(mem: Seq<u8>, base: int, n: nat) -> (Seq<u8>, nat, bool)
    decreases n,
{
    if n == 0 {
        (Seq::empty(), 0, true)
    } else {
        let (bytes, total, ok) = gather(mem, base, (n - 1) as nat);
        if !ok {
            (bytes, total, ok)
        } else {
            match ciovec_at(mem, base + 8 * (n - 1)) {
                None => (bytes, total, false),
                Some((ptr, len)) => if ptr + len <= mem.len() {
                    (bytes + mem.subrange(ptr as int, (ptr + len) as int), total + len, total + len <= u32::MAX)
                } else {
                    (bytes, total, false)
                },
            }
        }
    }
}

/// Whether `import` names `name` in the WASI module.
pub open spec fn is_wasi(import: ImportEntry, name: Seq<char>) -> bool {
    import.module@ == WASI_MODULE@ && import.name@ == name
}

/// Whether `e` is a host error raised for `import`.
pub open spec fn host_error_for(e: ExecuteError, import: ImportEntry) -> bool {
    e matches ExecuteError::Host { module, name, .. } && module == import.module && name == import.name
}

/// What `fd_write` does, given the journal and memory before and after and its
/// result.
pub open spec fn fd_write_spec(
    import: ImportEntry,
    args: Seq<Word>,
    journal: Seq<u8>,
    journal2: Seq<u8>,
    mem: Seq<u8>,
    mem2: Seq<u8>,
    r: Result<HostAction, ExecuteError>,
) -> bool {
    if args.len() != 4 {
        host_error_for(r->Err_0, import) && r is Err && journal2 == journal && mem2 == mem
    } else {
        let iovs = word_bits(args[1]) as u32;
        let iovs_len = word_bits(args[2]) as u32;
        let nwritten = word_bits(args[3]) as u32;
        let (bytes, total, ok) = gather(mem, iovs as int, iovs_len as nat);
        &&& journal2 == journal + bytes
        &&& if ok && nwritten + 4 <= mem.len() {
            &&& r matches Ok(HostAction::Return(v)) && v@ == seq![Word::I32(ERRNO_SUCCESS)]
            &&& mem2 == overwrite(mem, nwritten as int, le_bytes(total, 4))
        } else {
            &&& r is Err && host_error_for(r->Err_0, import)
            &&& mem2 == mem
        }
    }
}

/// The complaint that `func` was called with `actual` arguments where it
/// takes `expected`: `"{func} expects {expected} arguments, got {actual}"`.
pub open spec fn arity_text(func: Seq<char>, expected: nat, actual: nat) -> Seq<char> {
    func + " expects "@ + decimal(expected) + " arguments, got "@ + decimal(actual)
}

/// Renders [`arity_text`].
fn arity_message(func: &str, expected: usize, actual: usize) -> (r: String)
    ensures
        r@ == arity_text(func@, expected as nat, actual as nat),
{
    let mut out: Vec<char> = Vec::new();
    append(&mut out, func);
    append(&mut out, " expects ");
    append_decimal(&mut out, expected as u64);
    append(&mut out, " arguments, got ");
    append_decimal(&mut out, actual as u64);
    assert(out@ =~= arity_text(func@, expected as nat, actual as nat));
    string_of(out)
}

/// A deterministic in-memory `wasi_snapshot_preview1` host.
#[derive(Clone, Debug)]
pub struct WasiSnapshotPreview1 {
    journal: Vec<u8>,
}

impl Default for WasiSnapshotPreview1 {
    fn default() -> (r: Self)
        ensures
            r.journal_view() == Seq::<u8>::empty(),
    {
        WasiSnapshotPreview1 { journal: Vec::new() }
    }
}

proof fn lemma_gather_stops(mem: Seq<u8>, base: int, i: nat, n: nat)
    requires
        i <= n,
        !gather(mem, base, i).2,
    ensures
        gather(mem, base, n) == gather(mem, base, i),
    decreases n,
{
    if i < n {
        lemma_gather_stops(mem, base, i, (n - 1) as nat);
    }
}

fn read_u32(memory: &[u8], at: u64) -> (r: Option<u32>)
    ensures
        at + 4 <= memory@.len() ==> r == Some(le_value(memory@.subrange(at as int, at + 4)) as u32)
            && le_value(memory@.subrange(at as int, at + 4)) <= u32::MAX,
        at + 4 > memory@.len() ==> r is None,
{
    if at > memory.len() as u64 || memory.len() as u64 - at < 4 {
        return None;
    }
    let a = at as usize;
    let b0 = memory[a] as u32;
    let b1 = memory[a + 1] as u32;
    let b2 = memory[a + 2] as u32;
    let b3 = memory[a + 3] as u32;
    let ghost s = memory@.subrange(at as int, at + 4);
    proof {
        reveal_with_fuel(le_value, 5);
        assert(s.drop_first().drop_first().drop_first().drop_first().len() == 0);
        assert(s.drop_first()[0] == s[1]);
        assert(s.drop_first().drop_first()[0] == s[2]);
        assert(s.drop_first().drop_first().drop_first()[0] == s[3]);
    }
    Some(b0 + 256 * (b1 + 256 * (b2 + 256 * b3)))
}

fn write_u32(memory: &mut [u8], at: u64, value: u32) -> (r: Option<()>)
    ensures
        at + 4 <= old(memory)@.len() ==> r is Some && final(memory)@ == overwrite(
            old(memory)@,
            at as int,
            le_bytes(value as nat, 4),
        ),
        at + 4 > old(memory)@.len() ==> r is None && final(memory)@ == old(memory)@,
{
    if at > memory.len() as u64 || memory.len() as u64 - at < 4 {
        return None;
    }
    let a = at as usize;
    let ghost m = memory@;
    memory[a] = (value % 256) as u8;
    memory[a + 1] = (value / 256 % 256) as u8;
    memory[a + 2] = (value / 65536 % 256) as u8;
    memory[a + 3] = (value / 16777216 % 256) as u8;
    proof {
        reveal_with_fuel(pow256, 5);
        assert(value as nat / 1 == value) by (nonlinear_arith);
        assert(memory@ =~= overwrite(m, at as int, le_bytes(value as nat, 4)));
    }
    Some(())
}

impl WasiSnapshotPreview1 {
    /// The bytes the guest has written through `fd_write`, in write order.
    pub closed spec fn journal_view(&self) -> Seq<u8> {
        self.journal@
    }

    /// A host with an empty journal.
    pub fn new() -> (r: Self)
        ensures
            r.journal_view() == Seq::<u8>::empty(),
    {
        WasiSnapshotPreview1 { journal: Vec::new() }
    }

    /// The bytes the guest has written through `fd_write`, in write order.
    pub fn journal(&self) -> (r: &[u8])
        ensures
            r@ == self.journal_view(),
    {
        self.journal.as_slice()
    }

    /// Gathers the `iovec` array described by `args = [fd, iovs, iovs_len,
    /// nwritten]` into the journal and reports the byte count back to the guest
    /// at the `nwritten` pointer.
    fn fd_write(&mut self, import: &ImportEntry, args: &[Word], memory: &mut [u8]) -> (r: Result<HostAction, ExecuteError>)
        ensures
            fd_write_spec(
                *import,
                args@,
                old(self).journal_view(),
                final(self).journal_view(),
                old(memory)@,
                final(memory)@,
                r,
            ),
    {
        if args.len() != 4 {
            return Err(host_error(import, arity_message("fd_write", 4, args.len())));
        }
        let iovs = args[1].as_u32();
        let iovs_len = args[2].as_u32();
        let nwritten = args[3].as_u32();
        let ghost mem = memory@;
        let ghost journal0 = self.journal@;
        let ghost base = iovs as int;
        let mut total: u32 = 0;
        let mut i: u32 = 0;
        while i < iovs_len
            invariant
                i <= iovs_len,
                args@.len() == 4,
                mem == old(memory)@,
                journal0 == old(self).journal@,
                iovs == word_bits(args@[1]) as u32,
                iovs_len == word_bits(args@[2]) as u32,
                nwritten == word_bits(args@[3]) as u32,
                memory@ == mem,
                base == iovs as int,
                gather(mem, base, i as nat).2,
                gather(mem, base, i as nat).1 == total as nat,
                self.journal@ == journal0 + gather(mem, base, i as nat).0,
            decreases iovs_len - i,
        {
            let entry: u64 = iovs as u64 + (i as u64) * CIOVEC_LEN;
            let ptr = match read_u32(memory, entry) {
                Some(v) => v,
                None => {
                    proof {
                        assert(ciovec_at(mem, base + 8 * i) is None);
                        assert(!gather(mem, base, (i + 1) as nat).2);
                        lemma_gather_stops(mem, base, (i + 1) as nat, iovs_len as nat);
                    }
                    return Err(fault(import));
                },
            };
            let len = match read_u32(memory, entry + 4) {
                Some(v) => v,
                None => {
                    proof {
                        lemma_gather_stops(mem, base, (i + 1) as nat, iovs_len as nat);
                    }
                    return Err(fault(import));
                },
            };
            assert(ciovec_at(mem, base + 8 * i) == Some((ptr as nat, len as nat)));
            if ptr as u64 + len as u64 > memory.len() as u64 {
                proof {
                    assert(!gather(mem, base, (i + 1) as nat).2);
                    lemma_gather_stops(mem, base, (i + 1) as nat, iovs_len as nat);
                }
                return Err(fault(import));
            }
            let start = ptr as usize;
            let end = start + len as usize;
            let mut j: usize = start;
            let ghost before = self.journal@;
            while j < end
                invariant
                    start <= j <= end <= memory@.len(),
                    memory@ == mem,
                    self.journal@ == before + mem.subrange(start as int, j as int),
                decreases end - j,
            {
                self.journal.push(memory[j]);
                j = j + 1;
                assert(self.journal@ =~= before + mem.subrange(start as int, j as int));
            }
            if total as u64 + len as u64 > u32::MAX as u64 {
                proof {
                    lemma_gather_stops(mem, base, (i + 1) as nat, iovs_len as nat);
                    assert(self.journal@ =~= journal0 + gather(mem, base, (i + 1) as nat).0);
                }
                return Err(fault(import));
            }
            total = total + len;
            i = i + 1;
            assert(self.journal@ =~= journal0 + gather(mem, base, i as nat).0);
        }
        match write_u32(memory, nwritten as u64, total) {
            Some(()) => {},
            None => {
                return Err(fault(import));
            },
        }
        let mut out: Vec<Word> = Vec::new();
        out.push(Word::I32(ERRNO_SUCCESS));
        Ok(HostAction::Return(out))
    }
}

impl View for WasiSnapshotPreview1 {
    type V = Seq<u8>;

    /// The journal.
    open spec fn view(&self) -> Seq<u8> {
        self.journal_view()
    }
}

/// Whether `fd_write` on `args` over `mem` writes its count back: every iovec
/// lies in memory and so does the count's slot.
pub open spec fn fd_write_ok(args: Seq<Word>, mem: Seq<u8>) -> bool {
    args.len() == 4 && gather(mem, (word_bits(args[1]) as u32) as int, (word_bits(args[2]) as u32) as nat).2
        && (word_bits(args[3]) as u32) + 4 <= mem.len()
}

impl Host for WasiSnapshotPreview1 {
    open spec fn answer(state: Seq<u8>, import: ImportEntry, args: Seq<Word>, memory: Seq<u8>) -> HostAnswer {
        if is_wasi(import, "fd_write"@) {
            if fd_write_ok(args, memory) {
                HostAnswer::Return(seq![Word::I32(ERRNO_SUCCESS)])
            } else {
                HostAnswer::Fail
            }
        } else if is_wasi(import, "proc_exit"@) && args.len() == 1 {
            HostAnswer::Exit((word_bits(args[0]) as u32) as i32)
        } else {
            HostAnswer::Fail
        }
    }

    open spec fn state_after(state: Seq<u8>, import: ImportEntry, args: Seq<Word>, memory: Seq<u8>) -> Seq<u8> {
        if is_wasi(import, "fd_write"@) && args.len() == 4 {
            state + gather(memory, (word_bits(args[1]) as u32) as int, (word_bits(args[2]) as u32) as nat).0
        } else {
            state
        }
    }

    open spec fn memory_after(state: Seq<u8>, import: ImportEntry, args: Seq<Word>, memory: Seq<u8>) -> Seq<u8> {
        if is_wasi(import, "fd_write"@) && fd_write_ok(args, memory) {
            let g = gather(memory, (word_bits(args[1]) as u32) as int, (word_bits(args[2]) as u32) as nat);
            overwrite(memory, (word_bits(args[3]) as u32) as int, le_bytes(g.1, 4))
        } else {
            memory
        }
    }

    fn call(&mut self, import: &ImportEntry, args: &[Word], memory: &mut [u8]) -> (r: Result<HostAction, ExecuteError>)
        ensures
            is_wasi(*import, "fd_write"@) ==> fd_write_spec(
                *import,
                args@,
                old(self).journal_view(),
                final(self).journal_view(),
                old(memory)@,
                final(memory)@,
                r,
            ),
            is_wasi(*import, "proc_exit"@) ==> final(self).journal_view() == old(self).journal_view()
                && final(memory)@ == old(memory)@ && if args@.len() == 1 {
                r == Ok::<HostAction, ExecuteError>(HostAction::Exit((word_bits(args@[0]) as u32) as i32))
            } else {
                r is Err && host_error_for(r->Err_0, *import)
            },
            !is_wasi(*import, "fd_write"@) && !is_wasi(*import, "proc_exit"@) ==> r is Err
                && host_error_for(r->Err_0, *import) && final(self).journal_view()
                == old(self).journal_view() && final(memory)@ == old(memory)@,
    {
        proof {
            reveal_strlit("fd_write");
            reveal_strlit("proc_exit");
        }
        let wasi = WASI_MODULE.to_owned();
        let fd_write = "fd_write".to_owned();
        let proc_exit = "proc_exit".to_owned();
        if import.module == wasi && import.name == fd_write {
            assert("fd_write"@.len() == 8);
            assert("proc_exit"@.len() == 9);
            assert(!is_wasi(*import, "proc_exit"@));
            self.fd_write(import, args, memory)
        } else if import.module == wasi && import.name == proc_exit {
            assert(!is_wasi(*import, "fd_write"@));
            assert(is_wasi(*import, "proc_exit"@));
            let r = proc_exit_call(import, args);
            assert(args@.len() == 1 ==> r == Ok::<HostAction, ExecuteError>(HostAction::Exit((word_bits(args@[0]) as u32) as i32)));
            r
        } else {
            Err(host_error(import, "unsupported WASI import".to_owned()))
        }
    }
}

/// Halts the program with the status code carried by `args = [code]`.
fn proc_exit_call(import: &ImportEntry, args: &[Word]) -> (r: Result<HostAction, ExecuteError>)
    ensures
        args@.len() == 1 ==> r == Ok::<HostAction, ExecuteError>(HostAction::Exit((word_bits(args@[0]) as u32) as i32)),
        args@.len() != 1 ==> r is Err && host_error_for(r->Err_0, *import),
{
    if args.len() == 1 {
        Ok(HostAction::Exit(args[0].as_u32() as i32))
    } else {
        Err(host_error(import, arity_message("proc_exit", 1, args.len())))
    }
}

fn fault(import: &ImportEntry) -> (r: ExecuteError)
    ensures
        host_error_for(r, *import),
{
    host_error(import, "memory access outside linear memory".to_owned())
}

fn host_error(import: &ImportEntry, message: String) -> (r: ExecuteError)
    ensures
        r == (ExecuteError::Host { module: import.module, name: import.name, message }),
{
    ExecuteError::Host { module: import.module.clone(), name: import.name.clone(), message }
}

} // verus!
