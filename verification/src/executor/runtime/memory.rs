use vstd::prelude::*;
use vstd::arithmetic::div_mod::{lemma_div_denominator, lemma_mod_breakdown};
use crate::decoder::WASM32_PAGE_SIZE;
use crate::executor::error::{ExecuteError, Trap};

verus! {

/// `256^n`.
pub open spec fn pow256(n: nat) -> nat
    decreases n,
{
    if n == 0 {
        1
    } else {
        256 * pow256((n - 1) as nat)
    }
}

/// The integer a little-endian byte string denotes.
pub open spec fn le_value(s: Seq<u8>) -> nat
    decreases s.len(),
{
    if s.len() == 0 {
        0
    } else {
        s[0] as nat + 256 * le_value(s.drop_first())
    }
}

/// The low `n` bytes of `v`, least significant first.
pub open spec fn le_bytes(v: nat, n: nat) -> Seq<u8> {
    Seq::new(n, |i: int| ((v / pow256(i as nat)) % 256) as u8)
}

/// `bytes` with `patch` written over it from `at` on.
pub open spec fn overwrite(bytes: Seq<u8>, at: int, patch: Seq<u8>) -> Seq<u8> {
    bytes.subrange(0, at) + patch + bytes.subrange(at + patch.len(), bytes.len() as int)
}

/// `s` cut or zero-padded to `len` bytes.
pub open spec fn resized(s: Seq<u8>, len: nat) -> Seq<u8> {
    Seq::new(len, |j: int| if j < s.len() { s[j] } else { 0u8 })
}

/// Whether an access of `width` bytes at `base + offset` lies inside `len` bytes.
pub open spec fn in_bounds(base: u32, offset: u64, width: nat, len: nat) -> bool {
    base + offset + width <= len
}

pub proof fn lemma_pow256_positive(n: nat)
    ensures
        pow256(n) >= 1,
    decreases n,
{
    if n > 0 {
        lemma_pow256_positive((n - 1) as nat);
    }
}

pub proof fn lemma_pow256_monotone(a: nat, b: nat)
    requires
        a <= b,
    ensures
        pow256(a) <= pow256(b),
    decreases b,
{
    if a < b {
        lemma_pow256_monotone(a, (b - 1) as nat);
        lemma_pow256_positive((b - 1) as nat);
    }
}

pub proof fn lemma_pow256_8()
    ensures
        pow256(8) == 0x1_0000_0000_0000_0000,
{
    reveal_with_fuel(pow256, 9);
}

/// A little-endian value is below `256^len`.
pub proof fn lemma_le_value_bound(s: Seq<u8>)
    ensures
        le_value(s) < pow256(s.len()),
    decreases s.len(),
{
    if s.len() > 0 {
        lemma_le_value_bound(s.drop_first());
        let r = le_value(s.drop_first());
        let p = pow256((s.len() - 1) as nat);
        assert(256 * r + s[0] < 256 * p) by (nonlinear_arith)
            requires
                r < p,
                s[0] < 256,
        ;
    }
}

/// Reading back the bytes of `v` gives `v` reduced to their number.
pub proof fn lemma_le_value_of_bytes(v: nat, n: nat)
    ensures
        le_value(le_bytes(v, n)) == v % pow256(n),
    decreases n,
{
    if n == 0 {
        assert(le_bytes(v, 0).len() == 0);
    } else {
        let s = le_bytes(v, n);
        lemma_le_value_of_bytes(v / 256, (n - 1) as nat);
        assert forall|i: int| 0 <= i < n - 1 implies #[trigger] s.drop_first()[i] == le_bytes(v / 256, (n - 1) as nat)[i] by {
            lemma_pow256_positive(i as nat);
            lemma_div_denominator(v as int, 256, pow256(i as nat) as int);
        }
        assert(s.drop_first() =~= le_bytes(v / 256, (n - 1) as nat));
        assert(pow256(0) == 1);
        assert(v / 1 == v) by (nonlinear_arith);
        assert(s[0] == ((v / pow256(0)) % 256) as u8);
        assert(s[0] == v % 256);
        lemma_pow256_positive((n - 1) as nat);
        lemma_mod_breakdown(v as int, 256, pow256((n - 1) as nat) as int);
    }
}

/// A linear memory: its bytes and the module's page limit.
pub struct Memory {
    bytes: Vec<u8>,
    max_pages: Option<u64>,
}

impl Memory {
    /// The memory's bytes.
    pub closed spec fn bytes_view(&self) -> Seq<u8> {
        self.bytes@
    }

    /// The page limit the module declared, if any.
    pub closed spec fn max_pages_view(&self) -> Option<u64> {
        self.max_pages
    }

    /// A memory holding `bytes`, limited to `max_pages` pages if given.
    pub fn new(bytes: Vec<u8>, max_pages: Option<u64>) -> (r: Self)
        ensures
            r.bytes_view() == bytes@,
            r.max_pages_view() == max_pages,
    {
        Self { bytes, max_pages }
    }

    /// Reads `width` little-endian bytes at `base + offset`, returning the
    /// resolved address and raw zero-extended value.
    pub fn read(&self, base: u32, offset: u64, width: usize) -> (r: Result<(u64, u64), ExecuteError>)
        requires
            width <= 8,
        ensures
            in_bounds(base, offset, width as nat, self.bytes_view().len()) ==> (r matches Ok((a, raw))
                && a == base + offset && raw as nat == le_value(
                self.bytes_view().subrange(a as int, a + width),
            )),
            !in_bounds(base, offset, width as nat, self.bytes_view().len()) ==> r
                == Err::<(u64, u64), ExecuteError>(ExecuteError::Trap(Trap::MemoryOutOfBounds)),
    {
        let len = self.bytes.len();
        if (len as u64) < (base as u64) || (len as u64 - base as u64) < offset
            || (len as u64 - base as u64 - offset) < width as u64 {
            return Err(ExecuteError::Trap(Trap::MemoryOutOfBounds));
        }
        let address = base as u64 + offset;
        let start = address as usize;
        let ghost bytes = self.bytes@;
        let mut acc: u64 = 0;
        let mut i: usize = width;
        while i > 0
            invariant
                i <= width <= 8,
                start + width <= bytes.len(),
                start + width <= self.bytes.len(),
                bytes == self.bytes@,
                acc as nat == le_value(bytes.subrange(start + i, start + width)),
            decreases i,
        {
            let ghost tail = bytes.subrange(start + i, start + width);
            let ghost s = bytes.subrange(start + i - 1, start + width);
            assert(s.drop_first() =~= tail);
            proof {
                lemma_le_value_bound(s);
                lemma_pow256_monotone(s.len(), 8);
                lemma_pow256_8();
            }
            let idx = start + (i - 1);
            acc = acc * 256 + self.bytes[idx] as u64;
            i = i - 1;
        }
        Ok((address, acc))
    }

    /// Writes the low `width` bytes of `raw` at `base + offset`, returning
    /// the resolved address.
    pub fn write(&mut self, base: u32, offset: u64, width: usize, raw: u64) -> (r: Result<u64, ExecuteError>)
        requires
            width <= 8,
        ensures
            in_bounds(base, offset, width as nat, old(self).bytes_view().len()) ==> r
                == Ok::<u64, ExecuteError>((base + offset) as u64) && final(self).bytes_view()
                == overwrite(old(self).bytes_view(), base + offset, le_bytes(raw as nat, width as nat)),
            !in_bounds(base, offset, width as nat, old(self).bytes_view().len()) ==> r
                == Err::<u64, ExecuteError>(ExecuteError::Trap(Trap::MemoryOutOfBounds))
                && final(self).bytes_view() == old(self).bytes_view(),
            final(self).max_pages_view() == old(self).max_pages_view(),
    {
        let len = self.bytes.len();
        if (len as u64) < (base as u64) || (len as u64 - base as u64) < offset
            || (len as u64 - base as u64 - offset) < width as u64 {
            return Err(ExecuteError::Trap(Trap::MemoryOutOfBounds));
        }
        let address = base as u64 + offset;
        let start = address as usize;
        let ghost old_bytes = self.bytes@;
        let mut v: u64 = raw;
        let mut i: usize = 0;
        assert(pow256(0) == 1);
        while i < width
            invariant
                i <= width <= 8,
                start + width <= old_bytes.len(),
                self.bytes@.len() == old_bytes.len(),
                start + width <= self.bytes.len(),
                self.max_pages == old(self).max_pages,
                v as nat == raw as nat / pow256(i as nat),
                forall|j: int| 0 <= j < start || start + width <= j < old_bytes.len() ==> #[trigger] self.bytes@[j] == old_bytes[j],
                forall|j: int| start <= j < start + i ==> #[trigger] self.bytes@[j] == le_bytes(raw as nat, width as nat)[j - start],
            decreases width - i,
        {
            let idx = start + i;
            self.bytes.set(idx, (v % 256) as u8);
            proof {
                lemma_pow256_positive(i as nat);
                lemma_div_denominator(raw as int, pow256(i as nat) as int, 256);
            }
            v = v / 256;
            i = i + 1;
        }
        assert(self.bytes@ =~= overwrite(old_bytes, start as int, le_bytes(raw as nat, width as nat)));
        Ok(address)
    }

    /// The memory's size in whole pages.
    pub fn size_pages(&self) -> (r: u32)
        ensures
            r == (self.bytes_view().len() / (WASM32_PAGE_SIZE as nat)) as u32,
    {
        (self.bytes.len() / WASM32_PAGE_SIZE) as u32
    }

    /// Grows by `delta` pages, returning the previous page count, or
    /// `u32::MAX` if the grow would exceed the module or instance limit.
    pub fn grow(&mut self, delta: usize) -> (r: u32)
        ensures
            ({
                let old_pages = old(self).bytes_view().len() / (WASM32_PAGE_SIZE as nat);
                let n = old_pages + delta;
                if n <= WASM32_PAGE_SIZE && (old(self).max_pages_view() matches Some(m) ==> n <= m)
                    && n * WASM32_PAGE_SIZE <= usize::MAX {
                    &&& r == old_pages as u32
                    &&& final(self).bytes_view() == resized(old(self).bytes_view(), (n * WASM32_PAGE_SIZE) as nat)
                } else {
                    r == u32::MAX && final(self).bytes_view() == old(self).bytes_view()
                }
            }),
            final(self).max_pages_view() == old(self).max_pages_view(),
    {
        let old_pages = self.bytes.len() / WASM32_PAGE_SIZE;
        if delta > WASM32_PAGE_SIZE || old_pages > WASM32_PAGE_SIZE - delta {
            return u32::MAX;
        }
        let n = old_pages + delta;
        match self.max_pages {
            Some(m) => {
                if n as u64 > m {
                    return u32::MAX;
                }
            },
            None => {},
        }
        if n > usize::MAX / WASM32_PAGE_SIZE {
            return u32::MAX;
        }
        let bytes = n * WASM32_PAGE_SIZE;
        self.bytes.resize(bytes, 0);
        assert(self.bytes@ =~= resized(old(self).bytes@, bytes as nat));
        old_pages as u32
    }

    /// The memory's bytes, for a host call to read and write in place.
    pub fn as_mut_slice(&mut self) -> (r: &mut [u8])
        ensures
            r@ == old(self).bytes_view(),
            final(self).bytes_view() == final(r)@,
            final(self).max_pages_view() == old(self).max_pages_view(),
    {
        self.bytes.as_mut_slice()
    }
}

} // verus!

verus! {

/// A load of `width` bytes at the address a store of the same width just wrote
/// gives back the stored value's low `width` bytes, and a store leaves every
/// byte outside its range as it was.
pub proof fn law_load_after_store(bytes: Seq<u8>, at: int, raw: u64, width: nat)
    requires
        0 <= at,
        at + width <= bytes.len(),
    ensures
        le_value(overwrite(bytes, at, le_bytes(raw as nat, width)).subrange(at, at + width))
            == raw as nat % pow256(width),
        overwrite(bytes, at, le_bytes(raw as nat, width)).len() == bytes.len(),
        forall|j: int| 0 <= j < at || at + width <= j < bytes.len() ==> #[trigger] overwrite(
            bytes,
            at,
            le_bytes(raw as nat, width),
        )[j] == bytes[j],
{
    let w = overwrite(bytes, at, le_bytes(raw as nat, width));
    assert(w.subrange(at, at + width) =~= le_bytes(raw as nat, width));
    lemma_le_value_of_bytes(raw as nat, width);
}

} // verus!
