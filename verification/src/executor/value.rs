//! Reference semantics of WebAssembly's integer operators over [`Word`]s.
//!
//! Every operator computes on the bit pattern of its operands at the width of
//! the left operand: additive and multiplicative results wrap modulo `2^width`,
//! signed operators read the low `width` bits as a two's-complement integer,
//! and shift and rotate counts are reduced modulo the width.

use vstd::prelude::*;
use vstd::std_specs::bits::{u32_leading_zeros, u32_trailing_zeros, u64_leading_zeros, u64_trailing_zeros};
use crate::decoder::types::{Word, word_bits, word_width};
use crate::executor::error::Trap;

verus! {

/// A two-operand integer operator, abstract over the `i32` / `i64` width carried
/// by its operands.
#[derive(Clone, Copy, Debug, PartialEq, Eq, Structural)]
pub enum Arithmetic {
    Add,
    Sub,
    Mul,
    DivS,
    DivU,
    RemS,
    RemU,
    And,
    Or,
    Xor,
    Shl,
    ShrS,
    ShrU,
    Rotl,
    Rotr,
}

/// A two-operand integer comparison, producing an `i32` boolean.
#[derive(Clone, Copy, Debug, PartialEq, Eq, Structural)]
pub enum Compare {
    Eq,
    Ne,
    LtS,
    LtU,
    GtS,
    GtU,
    LeS,
    LeU,
    GeS,
    GeU,
}

/// A single-operand integer operator.
#[derive(Clone, Copy, Debug, PartialEq, Eq, Structural)]
pub enum Unary {
    Eqz,
    Clz,
    Ctz,
    Popcnt,
}

/// `2^width` for the two supported widths.
pub open spec fn modulus(width: u32) -> int {
    if width == 32 {
        0x1_0000_0000
    } else {
        0x1_0000_0000_0000_0000
    }
}

/// The two's-complement encoding of the integer `v` in `width` bits.
pub open spec fn encode(v: int, width: u32) -> u64 {
    (v % modulus(width)) as u64
}

/// The integer the low `width` bits of `x` denote in two's complement.
pub open spec fn signed_of(x: u64, width: u32) -> int {
    let v = x as int % modulus(width);
    if v >= modulus(width) / 2 {
        v - modulus(width)
    } else {
        v
    }
}

/// Absolute value.
pub open spec fn abs_int(v: int) -> int {
    if v < 0 {
        -v
    } else {
        v
    }
}

/// Division truncating toward zero.
pub open spec fn trunc_div(a: int, b: int) -> int {
    let q = abs_int(a) / abs_int(b);
    if (a < 0) != (b < 0) {
        -q
    } else {
        q
    }
}

/// The remainder of division truncating toward zero: it takes the sign of the
/// dividend.
pub open spec fn trunc_rem(a: int, b: int) -> int {
    let r = abs_int(a) % abs_int(b);
    if a < 0 {
        -r
    } else {
        r
    }
}

/// A masked result re-tagged as a word of the given width: an `i32` keeps the
/// low 32 bits.
pub open spec fn retag_spec(value: u64, width: u32) -> Word {
    if width == 32 {
        Word::I32(value as u32)
    } else {
        Word::I64(value)
    }
}

/// The shift count: the right operand reduced modulo the width.
pub open spec fn shift_count(y: u64, width: u32) -> u64 {
    y % (width as u64)
}

/// `x` shifted left by `k` within `width` bits.
pub open spec fn shl_bits(x: u64, k: u64, width: u32) -> u64 {
    if width == 32 {
        ((x as u32) << (k as u32)) as u64
    } else {
        x << k
    }
}

/// The low `width` bits of `x` shifted right by `k`, filling with zeros.
pub open spec fn shr_u_bits(x: u64, k: u64, width: u32) -> u64 {
    if width == 32 {
        ((x as u32) >> (k as u32)) as u64
    } else {
        x >> k
    }
}

/// The low `width` bits of `x` shifted right by `k`, filling with the sign bit.
pub open spec fn shr_s_bits(x: u64, k: u64, width: u32) -> u64 {
    if width == 32 {
        ((((x as u32) as i32) >> (k as i32)) as u32) as u64
    } else {
        ((x as i64) >> (k as i64)) as u64
    }
}

/// The low `width` bits of `x` rotated left by `k < width` places.
pub open spec fn rotl_bits(x: u64, k: u64, width: u32) -> u64 {
    if width == 32 {
        let v = x as u32;
        if k == 0 {
            v as u64
        } else {
            ((v << (k as u32)) | (v >> ((32 - k) as u32))) as u64
        }
    } else {
        if k == 0 {
            x
        } else {
            (x << k) | (x >> ((64 - k) as u64))
        }
    }
}

/// The low `width` bits of `x` rotated right by `k < width` places.
pub open spec fn rotr_bits(x: u64, k: u64, width: u32) -> u64 {
    if width == 32 {
        let v = x as u32;
        if k == 0 {
            v as u64
        } else {
            ((v >> (k as u32)) | (v << ((32 - k) as u32))) as u64
        }
    } else {
        if k == 0 {
            x
        } else {
            (x >> k) | (x << ((64 - k) as u64))
        }
    }
}

/// Whether the signed operands are the one pair whose quotient overflows:
/// the most negative value divided by `-1`.
pub open spec fn signed_overflow(x: u64, y: u64, width: u32) -> bool {
    signed_of(x, width) == -(modulus(width) / 2) && signed_of(y, width) == -1
}

/// The result WebAssembly defines for an arithmetic or bitwise operator.
pub open spec fn spec_arithmetic(kind: Arithmetic, lhs: Word, rhs: Word) -> Result<Word, Trap> {
    let x = word_bits(lhs);
    let y = word_bits(rhs);
    let w = word_width(lhs);
    match kind {
        Arithmetic::Add => Ok(retag_spec(encode(x + y, w), w)),
        Arithmetic::Sub => Ok(retag_spec(encode(x - y, w), w)),
        Arithmetic::Mul => Ok(retag_spec(encode(x * y, w), w)),
        Arithmetic::DivU => if y == 0 {
            Err(Trap::DivideByZero)
        } else {
            Ok(retag_spec(encode((x / y) as int, w), w))
        },
        Arithmetic::RemU => if y == 0 {
            Err(Trap::DivideByZero)
        } else {
            Ok(retag_spec(x % y, w))
        },
        Arithmetic::DivS => if y == 0 {
            Err(Trap::DivideByZero)
        } else if signed_overflow(x, y, w) {
            Err(Trap::IntegerOverflow)
        } else {
            Ok(retag_spec(encode(trunc_div(signed_of(x, w), signed_of(y, w)), w), w))
        },
        Arithmetic::RemS => if y == 0 {
            Err(Trap::DivideByZero)
        } else if signed_overflow(x, y, w) {
            Ok(retag_spec(0, w))
        } else {
            Ok(retag_spec(encode(trunc_rem(signed_of(x, w), signed_of(y, w)), w), w))
        },
        Arithmetic::And => Ok(retag_spec(x & y, w)),
        Arithmetic::Or => Ok(retag_spec(x | y, w)),
        Arithmetic::Xor => Ok(retag_spec(x ^ y, w)),
        Arithmetic::Shl => Ok(retag_spec(shl_bits(x, shift_count(y, w), w), w)),
        Arithmetic::ShrU => Ok(retag_spec(shr_u_bits(x, shift_count(y, w), w), w)),
        Arithmetic::ShrS => Ok(retag_spec(shr_s_bits(x, shift_count(y, w), w), w)),
        Arithmetic::Rotl => Ok(retag_spec(rotl_bits(x, shift_count(y, w), w), w)),
        Arithmetic::Rotr => Ok(retag_spec(rotr_bits(x, shift_count(y, w), w), w)),
    }
}

/// The inputs on which [`arithmetic`] is defined: a signed division or
/// remainder of a 32-bit left operand by a right operand whose low 32 bits are
/// zero but which is not itself zero has no defined divisor.
pub open spec fn arithmetic_defined(kind: Arithmetic, lhs: Word, rhs: Word) -> bool {
    (kind == Arithmetic::DivS || kind == Arithmetic::RemS) && word_width(lhs) == 32
        ==> (word_bits(rhs) == 0 || word_bits(rhs) as int % 0x1_0000_0000 != 0)
}

/// The truth value a comparison computes.
pub open spec fn spec_compare_holds(kind: Compare, lhs: Word, rhs: Word) -> bool {
    let x = word_bits(lhs);
    let y = word_bits(rhs);
    let w = word_width(lhs);
    match kind {
        Compare::Eq => x == y,
        Compare::Ne => x != y,
        Compare::LtU => x < y,
        Compare::GtU => x > y,
        Compare::LeU => x <= y,
        Compare::GeU => x >= y,
        Compare::LtS => signed_of(x, w) < signed_of(y, w),
        Compare::GtS => signed_of(x, w) > signed_of(y, w),
        Compare::LeS => signed_of(x, w) <= signed_of(y, w),
        Compare::GeS => signed_of(x, w) >= signed_of(y, w),
    }
}

/// The `i32` boolean a comparison yields.
pub open spec fn spec_compare(kind: Compare, lhs: Word, rhs: Word) -> Word {
    Word::I32(if spec_compare_holds(kind, lhs, rhs) { 1 } else { 0 })
}

/// The number of one bits among the low `n` bits of `x`.
pub open spec fn popcount(x: nat, n: nat) -> nat
    decreases n,
{
    if n == 0 {
        0
    } else {
        x % 2 + popcount(x / 2, (n - 1) as nat)
    }
}

/// The number of leading zeros of `x` within `width` bits.
pub open spec fn leading_zeros_spec(x: u64, width: u32) -> int {
    if width == 32 {
        u32_leading_zeros(x as u32) as int
    } else {
        u64_leading_zeros(x)
    }
}

/// The number of trailing zeros of `x` within `width` bits.
pub open spec fn trailing_zeros_spec(x: u64, width: u32) -> int {
    if width == 32 {
        u32_trailing_zeros(x as u32) as int
    } else {
        u64_trailing_zeros(x) as int
    }
}

/// The result WebAssembly defines for a unary operator.
pub open spec fn spec_unary(kind: Unary, operand: Word) -> Word {
    let x = word_bits(operand);
    let w = word_width(operand);
    match kind {
        Unary::Eqz => Word::I32(if x == 0 { 1 } else { 0 }),
        Unary::Clz => retag_spec(leading_zeros_spec(x, w) as u64, w),
        Unary::Ctz => retag_spec(trailing_zeros_spec(x, w) as u64, w),
        Unary::Popcnt => retag_spec(popcount(x as nat, w as nat) as u64, w),
    }
}

/// Re-tags a masked `u64` result as a [`Word`] of the given width. The narrowing
/// cast keeps the low 32 bits, which is the defined `i32` representation.
fn retag(value: u64, width: u32) -> (r: Word)
    ensures
        r == retag_spec(value, width),
{
    if width == 32 {
        Word::I32(value as u32)
    } else {
        Word::I64(value)
    }
}

/// Low `width`-bit mask.
fn mask(width: u32) -> (r: u64)
    ensures
        width == 32 ==> r == 0xFFFF_FFFFu64,
        width != 32 ==> r == 0xFFFF_FFFF_FFFF_FFFFu64,
{
    if width == 32 {
        0xFFFF_FFFFu64
    } else {
        u64::MAX
    }
}

/// The low `width` bits of `x` with the sign bit flipped: an unsigned number
/// that orders the same way as the signed value.
fn biased(x: u64, width: u32) -> (r: u64)
    requires
        width == 32 || width == 64,
    ensures
        r as int == signed_of(x, width) + modulus(width) / 2,
{
    if width == 32 {
        let v = x & 0xFFFF_FFFF;
        assert(v == x % 0x1_0000_0000) by (bit_vector)
            requires v == x & 0xFFFF_FFFF;
        if v >= 0x8000_0000 {
            v - 0x8000_0000
        } else {
            v + 0x8000_0000
        }
    } else {
        if x >= 0x8000_0000_0000_0000 {
            x - 0x8000_0000_0000_0000
        } else {
            x + 0x8000_0000_0000_0000
        }
    }
}

/// The sign and magnitude of the integer the low `width` bits of `x` denote.
fn sign_magnitude(x: u64, width: u32) -> (r: (bool, u64))
    requires
        width == 32 || width == 64,
    ensures
        r.0 == (signed_of(x, width) < 0),
        r.1 as int == abs_int(signed_of(x, width)),
{
    if width == 32 {
        let v = x & 0xFFFF_FFFF;
        assert(v == x % 0x1_0000_0000) by (bit_vector)
            requires v == x & 0xFFFF_FFFF;
        if v >= 0x8000_0000 {
            (true, 0x1_0000_0000 - v)
        } else {
            (false, v)
        }
    } else {
        if x >= 0x8000_0000_0000_0000 {
            (true, (u64::MAX - x) + 1)
        } else {
            (false, x)
        }
    }
}

/// Encodes `sign * magnitude` in two's complement within `width` bits.
fn encode_signed(negative: bool, magnitude: u64, width: u32) -> (r: u64)
    requires
        width == 32 || width == 64,
    ensures
        r == encode(if negative { -(magnitude as int) } else { magnitude as int }, width),
{
    let m = mask(width);
    if negative && magnitude != 0 {
        let neg = (u64::MAX - magnitude) + 1;
        assert(neg as int == 0x1_0000_0000_0000_0000 - magnitude);
        let r = neg & m;
        if width == 32 {
            assert(r == neg % 0x1_0000_0000) by (bit_vector)
                requires r == neg & 0xFFFF_FFFFu64;
            assert((0x1_0000_0000_0000_0000 - magnitude) % 0x1_0000_0000 == (-(magnitude as int))
                % 0x1_0000_0000);
        } else {
            assert(r == neg) by (bit_vector)
                requires r == neg & 0xFFFF_FFFF_FFFF_FFFFu64;
        }
        r
    } else {
        let r = magnitude & m;
        if width == 32 {
            assert(r == magnitude % 0x1_0000_0000) by (bit_vector)
                requires r == magnitude & 0xFFFF_FFFFu64;
        } else {
            assert(r == magnitude) by (bit_vector)
                requires r == magnitude & 0xFFFF_FFFF_FFFF_FFFFu64;
        }
        r
    }
}

/// The number of one bits among the low `width` bits of `x`.
pub(crate) fn count_ones(x: u64, width: u32) -> (r: u64)
    requires
        width == 32 || width == 64,
    ensures
        r as nat == popcount(x as nat, width as nat),
{
    let mut v = x;
    let mut count: u64 = 0;
    let mut i: u32 = 0;
    while i < width
        invariant
            i <= width,
            width == 32 || width == 64,
            count <= i,
            count + popcount(v as nat, (width - i) as nat) == popcount(x as nat, width as nat),
        decreases width - i,
    {
        let bit = v & 1;
        assert(bit == v % 2 && v >> 1 == v / 2 && bit <= 1) by (bit_vector)
            requires bit == v & 1;
        count = count + bit;
        v = v >> 1;
        i = i + 1;
    }
    count
}

/// `x + y` modulo `2^width`.
fn wrap_add(x: u64, y: u64, width: u32) -> (r: u64)
    requires
        width == 32 || width == 64,
    ensures
        r == encode(x + y, width),
{
    let s = x.wrapping_add(y);
    let r = s & mask(width);
    if width == 32 {
        assert(r == s % 0x1_0000_0000) by (bit_vector)
            requires r == s & 0xFFFF_FFFFu64;
    } else {
        assert(r == s) by (bit_vector)
            requires r == s & 0xFFFF_FFFF_FFFF_FFFFu64;
    }
    assert(s as int == (x + y) % 0x1_0000_0000_0000_0000);
    assert(((x + y) % 0x1_0000_0000_0000_0000) % 0x1_0000_0000 == (x + y) % 0x1_0000_0000) by {
        vstd::arithmetic::div_mod::lemma_mod_mod(x + y, 0x1_0000_0000, 0x1_0000_0000);
    }
    r
}

/// `x - y` modulo `2^width`.
fn wrap_sub(x: u64, y: u64, width: u32) -> (r: u64)
    requires
        width == 32 || width == 64,
    ensures
        r == encode(x - y, width),
{
    let s = x.wrapping_sub(y);
    let r = s & mask(width);
    if width == 32 {
        assert(r == s % 0x1_0000_0000) by (bit_vector)
            requires r == s & 0xFFFF_FFFFu64;
    } else {
        assert(r == s) by (bit_vector)
            requires r == s & 0xFFFF_FFFF_FFFF_FFFFu64;
    }
    assert(s as int == (x - y) % 0x1_0000_0000_0000_0000);
    assert(((x - y) % 0x1_0000_0000_0000_0000) % 0x1_0000_0000 == (x - y) % 0x1_0000_0000) by {
        vstd::arithmetic::div_mod::lemma_mod_mod(x - y, 0x1_0000_0000, 0x1_0000_0000);
    }
    r
}

/// `x * y` modulo `2^width`.
fn wrap_mul(x: u64, y: u64, width: u32) -> (r: u64)
    requires
        width == 32 || width == 64,
    ensures
        r == encode(x * y, width),
{
    let s = x.wrapping_mul(y);
    let r = s & mask(width);
    if width == 32 {
        assert(r == s % 0x1_0000_0000) by (bit_vector)
            requires r == s & 0xFFFF_FFFFu64;
        assert(((x * y) % 0x1_0000_0000_0000_0000) % 0x1_0000_0000 == (x * y) % 0x1_0000_0000)
            by {
            vstd::arithmetic::div_mod::lemma_mod_mod(x * y, 0x1_0000_0000, 0x1_0000_0000);
        }
    } else {
        assert(r == s) by (bit_vector)
            requires r == s & 0xFFFF_FFFF_FFFF_FFFFu64;
    }
    r
}

/// Signed division or remainder of the low `width` bits of `x` by those of `y`.
fn signed_div_rem(x: u64, y: u64, width: u32, remainder: bool) -> (r: Result<u64, Trap>)
    requires
        width == 32 || width == 64,
        signed_of(y, width) != 0,
    ensures
        !remainder ==> r == (if signed_overflow(x, y, width) {
            Err::<u64, Trap>(Trap::IntegerOverflow)
        } else {
            Ok(encode(trunc_div(signed_of(x, width), signed_of(y, width)), width))
        }),
        remainder ==> r == (if signed_overflow(x, y, width) {
            Ok::<u64, Trap>(0)
        } else {
            Ok(encode(trunc_rem(signed_of(x, width), signed_of(y, width)), width))
        }),
{
    let (a_neg, a_mag) = sign_magnitude(x, width);
    let (b_neg, b_mag) = sign_magnitude(y, width);
    let overflow = a_neg && b_neg && b_mag == 1 && (if width == 32 {
        a_mag == 0x8000_0000
    } else {
        a_mag == 0x8000_0000_0000_0000
    });
    assert(overflow == signed_overflow(x, y, width));
    if !remainder {
        if overflow {
            return Err(Trap::IntegerOverflow);
        }
        let q = a_mag / b_mag;
        Ok(encode_signed(a_neg != b_neg, q, width))
    } else {
        if overflow {
            Ok(0)
        } else {
            let rem = a_mag % b_mag;
            Ok(encode_signed(a_neg, rem, width))
        }
    }
}

/// Shift of `x` by `y` reduced modulo the width, in the given direction.
fn shift(x: u64, y: u64, width: u32, kind: Arithmetic) -> (r: u64)
    requires
        width == 32 || width == 64,
        kind == Arithmetic::Shl || kind == Arithmetic::ShrU || kind == Arithmetic::ShrS,
    ensures
        kind == Arithmetic::Shl ==> r == shl_bits(x, shift_count(y, width), width),
        kind == Arithmetic::ShrU ==> r == shr_u_bits(x, shift_count(y, width), width),
        kind == Arithmetic::ShrS ==> r == shr_s_bits(x, shift_count(y, width), width),
{
    let k = y % (width as u64);
    let m = mask(width);
    if kind == Arithmetic::Shl {
        let r = (x << k) & m;
        if width == 32 {
            assert(r == (((x as u32) << (k as u32)) as u64)) by (bit_vector)
                requires r == (x << k) & 0xFFFF_FFFFu64, k < 32;
        } else {
            assert(r == x << k) by (bit_vector)
                requires r == (x << k) & 0xFFFF_FFFF_FFFF_FFFFu64;
        }
        r
    } else if kind == Arithmetic::ShrU {
        let r = (x & m) >> k;
        if width == 32 {
            assert(r == (((x as u32) >> (k as u32)) as u64)) by (bit_vector)
                requires r == (x & 0xFFFF_FFFFu64) >> k, k < 32;
        } else {
            assert(r == x >> k) by (bit_vector)
                requires r == (x & 0xFFFF_FFFF_FFFF_FFFFu64) >> k;
        }
        r
    } else if width == 32 {
        ((((x as u32) as i32) >> (k as i32)) as u32) as u64
    } else {
        ((x as i64) >> (k as i64)) as u64
    }
}

/// Applies a binary arithmetic or bitwise operator to two same-width operands.
///
/// Division and remainder trap on a zero divisor; signed division traps on the
/// `MIN / -1` overflow, while the signed remainder of that pair is zero. Shift
/// and rotate counts are reduced modulo the operand width.
pub fn arithmetic(kind: Arithmetic, lhs: Word, rhs: Word) -> (r: Result<Word, Trap>)
    requires
        arithmetic_defined(kind, lhs, rhs),
    ensures
        r == spec_arithmetic(kind, lhs, rhs),
{
    let (x, width) = lhs.raw();
    let (y, _) = rhs.raw();
    assert(width == 32 || width == 64);
    assert(width == 32 ==> x < 0x1_0000_0000);
    let result: u64 = match kind {
        Arithmetic::Add => wrap_add(x, y, width),
        Arithmetic::Sub => wrap_sub(x, y, width),
        Arithmetic::Mul => wrap_mul(x, y, width),
        Arithmetic::DivU => {
            if y == 0 {
                return Err(Trap::DivideByZero);
            }
            let q = x / y;
            assert(q <= x) by {
                vstd::arithmetic::div_mod::lemma_div_is_ordered_by_denominator(x as int, 1, y as int);
            }
            q
        },
        Arithmetic::RemU => {
            if y == 0 {
                return Err(Trap::DivideByZero);
            }
            x % y
        },
        Arithmetic::DivS | Arithmetic::RemS => {
            if y == 0 {
                return Err(Trap::DivideByZero);
            }
            assert(y as int % modulus(width) != 0);
            assert(signed_of(y, width) != 0);
            match signed_div_rem(x, y, width, kind == Arithmetic::RemS) {
                Ok(v) => v,
                Err(t) => return Err(t),
            }
        },
        Arithmetic::And => x & y,
        Arithmetic::Or => x | y,
        Arithmetic::Xor => x ^ y,
        Arithmetic::Shl | Arithmetic::ShrU | Arithmetic::ShrS => shift(x, y, width, kind),
        Arithmetic::Rotl => rotate(x, y % (width as u64), width, true),
        Arithmetic::Rotr => rotate(x, y % (width as u64), width, false),
    };
    Ok(retag(result, width))
}

/// Rotates the low `width` bits of `x` by `k < width` places.
fn rotate(x: u64, k: u64, width: u32, left: bool) -> (r: u64)
    requires
        width == 32 || width == 64,
        k < width,
    ensures
        left ==> r == rotl_bits(x, k, width),
        !left ==> r == rotr_bits(x, k, width),
{
    if width == 32 {
        let v = x as u32;
        if k == 0 {
            v as u64
        } else if left {
            ((v << (k as u32)) | (v >> ((32 - k) as u32))) as u64
        } else {
            ((v >> (k as u32)) | (v << ((32 - k) as u32))) as u64
        }
    } else if k == 0 {
        x
    } else if left {
        (x << k) | (x >> (64 - k))
    } else {
        (x >> k) | (x << (64 - k))
    }
}

/// Applies a comparison to two same-width operands, yielding an `i32` `0` or `1`.
pub fn compare(kind: Compare, lhs: Word, rhs: Word) -> (r: Word)
    ensures
        r == spec_compare(kind, lhs, rhs),
{
    let (x, width) = lhs.raw();
    let (y, _) = rhs.raw();
    let truth = match kind {
        Compare::Eq => x == y,
        Compare::Ne => x != y,
        Compare::LtU => x < y,
        Compare::GtU => x > y,
        Compare::LeU => x <= y,
        Compare::GeU => x >= y,
        Compare::LtS => biased(x, width) < biased(y, width),
        Compare::GtS => biased(x, width) > biased(y, width),
        Compare::LeS => biased(x, width) <= biased(y, width),
        Compare::GeS => biased(x, width) >= biased(y, width),
    };
    Word::I32(if truth { 1 } else { 0 })
}

/// Applies a unary operator. `eqz` yields an `i32`; the bit-count operators
/// preserve the operand width.
pub fn unary(kind: Unary, operand: Word) -> (r: Word)
    ensures
        r == spec_unary(kind, operand),
{
    let (x, width) = operand.raw();
    match kind {
        Unary::Eqz => Word::I32(if x == 0 { 1 } else { 0 }),
        Unary::Clz => {
            let n: u64 = if width == 32 {
                (x as u32).leading_zeros() as u64
            } else {
                x.leading_zeros() as u64
            };
            retag(n, width)
        },
        Unary::Ctz => {
            let n: u64 = if width == 32 {
                (x as u32).trailing_zeros() as u64
            } else {
                x.trailing_zeros() as u64
            };
            retag(n, width)
        },
        Unary::Popcnt => retag(count_ones(x, width), width),
    }
}

} // verus!
