//! The witness values a trace row carries beside its value bus: the byte
//! decompositions the range checks read, the comparison gadgets' borrow, sign
//! and is-zero witnesses, the bitwise nibbles, the popcount bytes, the
//! program-data pair, and the address-sorted log with its ordering gaps.
//!
//! Each function computes the values one family writes for a row; a value is
//! a field element by its canonical residue.

use vstd::prelude::*;
use vstd::seq_lib::to_multiset_contains;
use vstd::arithmetic::div_mod::{
    lemma_add_mod_noop, lemma_div_denominator, lemma_mod_bound, lemma_mod_breakdown, lemma_mul_mod_noop_general,
    lemma_mul_mod_noop_left, lemma_small_mod, lemma_sub_mod_noop,
};
use crate::air::constraints::FIELD_ORDER;
use crate::air::field::{felt_add, felt_inverse, felt_mul, felt_new, felt_sub, fp_add, fp_mul, fp_sub, order};
use crate::decoder::opcode::OpCode;
use crate::decoder::types::{Word, word_bits};
use crate::executor::record::StepRecord;
use crate::executor::value::{count_ones, popcount};
use crate::lift::program::{LiftedFunction, Successors};
use crate::trace::access::{
    Access, access_order, law_sorted_log_is_ordered_permutation, law_stream_timestamps_increase, sort_accesses, sort_by_key,
    stream_spec,
};
use crate::trace::frame::ExecFrame;
use crate::trace::layout::BUS_SLOTS;
use crate::trace::sorting::{lemma_insert_at, lemma_insertion_point_exists};
use crate::trace::error::TraceError;
use crate::trace::frame::{
    binary_compare, bitwise, i64_compare, is_binary_compare, is_bitwise, is_i64_compare, is_signed_compare, signed_compare,
};
use crate::trace::layout::{BW_NIBBLES, LIMB_BYTES, LIMB_NIBBLES, POPCNT_BYTES};

verus! {

/// `base^n`.
pub open spec fn power(base: nat, n: nat) -> nat
    decreases n,
{
    if n == 0 {
        1
    } else {
        base * power(base, (n - 1) as nat)
    }
}

/// Digit `i` of `v` in base `base`, least significant first.
pub open spec fn digit(v: nat, base: nat, i: nat) -> nat {
    (v / power(base, i)) % base
}

/// The low `n` digits of `v` in base `base`, least significant first.
pub open spec fn digits(v: nat, base: nat, n: nat) -> Seq<u64> {
    Seq::new(n, |i: int| digit(v, base, i as nat) as u64)
}

/// The number little-endian digits `d` denote in base `base`.
pub open spec fn digits_value(d: Seq<u64>, base: nat) -> nat
    decreases d.len(),
{
    if d.len() == 0 {
        0
    } else {
        d[0] as nat + base * digits_value(d.drop_first(), base)
    }
}

proof fn lemma_power_positive(base: nat, n: nat)
    requires
        base > 0,
    ensures
        power(base, n) >= 1,
    decreases n,
{
    if n > 0 {
        lemma_power_positive(base, (n - 1) as nat);
        assert(base * power(base, (n - 1) as nat) >= 1) by (nonlinear_arith)
            requires
                base >= 1,
                power(base, (n - 1) as nat) >= 1,
        ;
    }
}

/// Digit `i + 1` of `v` is digit `i` of `v / base`.
proof fn lemma_digit_shift(v: nat, base: nat, i: nat)
    requires
        base > 0,
    ensures
        digit(v, base, i + 1) == digit(v / base, base, i),
{
    lemma_power_positive(base, i);
    lemma_div_denominator(v as int, base as int, power(base, i) as int);
}

/// The low `n` digits of `v` denote `v` reduced below `base^n`.
pub proof fn law_digits_recompose(v: nat, base: nat, n: nat)
    requires
        1 < base <= 0x1_0000_0000,
    ensures
        digits_value(digits(v, base, n), base) == v % power(base, n),
    decreases n,
{
    if n == 0 {
        assert(digits(v, base, 0).len() == 0);
    } else {
        let s = digits(v, base, n);
        law_digits_recompose(v / base, base, (n - 1) as nat);
        assert forall|i: int| 0 <= i < n - 1 implies #[trigger] s.drop_first()[i] == digits(v / base, base, (n - 1) as nat)[i] by {
            lemma_digit_shift(v, base, i as nat);
        }
        assert(s.drop_first() =~= digits(v / base, base, (n - 1) as nat));
        assert(power(base, 0) == 1);
        assert(v / 1 == v) by (nonlinear_arith);
        assert(s[0] == v % base);
        lemma_power_positive(base, (n - 1) as nat);
        lemma_mod_breakdown(v as int, base as int, power(base, (n - 1) as nat) as int);
    }
}

/// The low `count` little-endian bytes of `value`, each as a field element.
pub fn write_bytes(value: u64, count: usize) -> (r: Vec<u64>)
    requires
        count <= 8,
    ensures
        r@ == digits(value as nat, 256, count as nat),
{
    let mut r: Vec<u64> = Vec::new();
    let mut rest: u64 = value;
    let mut i: usize = 0;
    assert(power(256, 0) == 1);
    assert(value as nat / 1 == value) by (nonlinear_arith);
    assert(digits(value as nat, 256, 0) =~= Seq::<u64>::empty());
    while i < count
        invariant
            i <= count <= 8,
            rest == value as nat / power(256, i as nat),
            r@ == digits(value as nat, 256, i as nat),
        decreases count - i,
    {
        proof {
            lemma_power_positive(256, i as nat);
            lemma_div_denominator(value as int, power(256, i as nat) as int, 256);
            assert(power(256, i as nat) * 256 == power(256, (i + 1) as nat)) by (nonlinear_arith)
                requires
                    power(256, (i + 1) as nat) == 256 * power(256, i as nat),
            ;
        }
        r.push(rest % 256);
        rest = rest / 256;
        i = i + 1;
        assert(r@ =~= digits(value as nat, 256, i as nat));
    }
    r
}

/// The bytes of one 32-bit limb, as the range checks decompose it.
pub fn write_value_bytes(value: u64) -> (r: Vec<u64>)
    ensures
        r@ == digits(value as nat, 256, LIMB_BYTES as nat),
{
    write_bytes(value, LIMB_BYTES)
}

/// Whether `v` fits in one 32-bit limb.
pub open spec fn is_limb(v: u64) -> bool {
    v < 0x1_0000_0000
}

/// The integer two limbs `(lo, hi)` denote.
pub open spec fn limb_value(l: (u64, u64)) -> int {
    l.0 + l.1 * 0x1_0000_0000
}

/// A word's limbs `(lo, hi)`.
pub open spec fn limbs_of(w: Word) -> (u64, u64) {
    ((word_bits(w) % 0x1_0000_0000) as u64, (word_bits(w) / 0x1_0000_0000) as u64)
}

/// The limbwise subtraction witness of a comparison `lhs - rhs`.
#[derive(Clone, Copy, Debug, PartialEq, Eq, Structural)]
pub struct BorrowWitness {
    /// The low limbs' difference, brought into range by the low borrow.
    pub dlo: u64,
    /// The high limbs' difference net of the low borrow, brought into range by
    /// the high borrow.
    pub dhi: u64,
    /// One when the low limb borrows.
    pub borrow_lo: u64,
    /// One when the high limb borrows.
    pub borrow_hi: u64,
}

/// The subtraction witness of `lhs - rhs`, limb by limb.
pub open spec fn borrow_of(lhs: (u64, u64), rhs: (u64, u64)) -> BorrowWitness {
    let blo: u64 = if lhs.0 < rhs.0 {
        1
    } else {
        0
    };
    let bhi: u64 = if lhs.1 < rhs.1 + blo {
        1
    } else {
        0
    };
    BorrowWitness {
        dlo: (lhs.0 - rhs.0 + blo * 0x1_0000_0000) as u64,
        dhi: (lhs.1 - rhs.1 - blo + bhi * 0x1_0000_0000) as u64,
        borrow_lo: blo,
        borrow_hi: bhi,
    }
}

/// Computes the subtraction witness of `lhs - rhs`: the low limbs'
/// difference and borrow, then the high limbs' difference net of that borrow,
/// with its own borrow. The differences are limbs, each limb's identity holds,
/// and the high borrow is set exactly when `lhs` is below `rhs`.
pub fn fill_borrow(lhs: (u64, u64), rhs: (u64, u64)) -> (w: BorrowWitness)
    requires
        is_limb(lhs.0) && is_limb(lhs.1),
        is_limb(rhs.0) && is_limb(rhs.1),
    ensures
        w == borrow_of(lhs, rhs),
        is_limb(w.dlo) && is_limb(w.dhi),
        w.borrow_lo <= 1 && w.borrow_hi <= 1,
        lhs.0 - rhs.0 + w.borrow_lo * 0x1_0000_0000 == w.dlo,
        lhs.1 - rhs.1 - w.borrow_lo + w.borrow_hi * 0x1_0000_0000 == w.dhi,
        w.borrow_hi == 1 <==> limb_value(lhs) < limb_value(rhs),
{
    let two32: u64 = 0x1_0000_0000;
    let (dlo, borrow_lo) = if lhs.0 >= rhs.0 {
        (lhs.0 - rhs.0, 0u64)
    } else {
        (lhs.0 + two32 - rhs.0, 1u64)
    };
    let (dhi, borrow_hi) = if lhs.1 >= rhs.1 + borrow_lo {
        (lhs.1 - rhs.1 - borrow_lo, 0u64)
    } else {
        (lhs.1 + two32 - rhs.1 - borrow_lo, 1u64)
    };
    BorrowWitness { dlo, dhi, borrow_lo, borrow_hi }
}

/// The sign witness of a 32-bit limb.
#[derive(Clone, Copy, Debug, PartialEq, Eq, Structural)]
pub struct SignWitness {
    /// The 31 bits below the sign bit.
    pub rest: u64,
    /// The rest's top byte, doubled.
    pub top: u64,
    /// The sign bit.
    pub sign: u64,
}

/// The sign witness of `limb`.
pub open spec fn sign_of(limb: u64) -> SignWitness {
    let rest = limb % 0x8000_0000;
    SignWitness { rest: rest as u64, top: (2 * digit(rest as nat, 256, 3)) as u64, sign: (limb / 0x8000_0000) as u64 }
}

/// Splits a 32-bit limb into its sign bit and the 31 bits below it, with the
/// rest's top byte doubled: a byte the range check accepts, which pins the
/// rest below `2^31`.
pub fn fill_sign(limb: u64) -> (w: SignWitness)
    requires
        is_limb(limb),
    ensures
        w == sign_of(limb),
        limb == w.rest + w.sign * 0x8000_0000,
        w.sign <= 1,
        w.rest < 0x8000_0000,
        w.top < 256,
{
    let sign = (limb >> 31) & 1;
    let rest = limb & 0x7FFF_FFFF;
    let top_byte = (rest >> 24) & 0xff;
    proof {
        assert(sign == limb / 0x8000_0000 && rest == limb % 0x8000_0000) by (bit_vector)
            requires
                limb < 0x1_0000_0000,
                sign == (limb >> 31) & 1,
                rest == limb & 0x7FFF_FFFF,
        ;
        assert(top_byte == rest / 0x100_0000 && top_byte < 128) by (bit_vector)
            requires
                rest < 0x8000_0000,
                top_byte == (rest >> 24) & 0xff,
        ;
        reveal_with_fuel(power, 4);
        assert(power(256, 3) == 0x100_0000);
        lemma_small_mod(top_byte as nat, 256);
    }
    SignWitness { rest, top: 2 * top_byte, sign }
}

/// `(a.lo - b.lo) + (a.hi - b.hi) * 2^32` in the field.
pub open spec fn limb_gap(a: (u64, u64), b: (u64, u64)) -> u64 {
    fp_add(
        fp_sub((a.0 % FIELD_ORDER) as u64, (b.0 % FIELD_ORDER) as u64),
        fp_mul(fp_sub((a.1 % FIELD_ORDER) as u64, (b.1 % FIELD_ORDER) as u64), 0x1_0000_0000),
    )
}

/// The field element whose product with `g` is one.
pub open spec fn felt_inverse_spec(g: u64) -> u64 {
    choose|x: u64| x < FIELD_ORDER && fp_mul(g, x) == 1
}

/// The is-zero witness of two limb pairs.
#[derive(Clone, Copy, Debug, PartialEq, Eq, Structural)]
pub struct IsZeroWitness {
    /// One when the limb gap vanishes.
    pub equal: u64,
    /// The gap's inverse, zero when it vanishes.
    pub inv: u64,
}

/// The is-zero witness of `a` against `b`.
pub open spec fn is_zero_of(a: (u64, u64), b: (u64, u64)) -> IsZeroWitness {
    let g = limb_gap(a, b);
    if g == 0 {
        IsZeroWitness { equal: 1, inv: 0 }
    } else {
        IsZeroWitness { equal: 0, inv: felt_inverse_spec(g) }
    }
}

/// The limb gap is the limbs' integer difference reduced into the field.
proof fn lemma_limb_gap(a: (u64, u64), b: (u64, u64))
    ensures
        limb_gap(a, b) as int == ((a.0 - b.0) + (a.1 - b.1) * 0x1_0000_0000) % order(),
{
    let p = order();
    let x = a.1 - b.1;
    lemma_sub_mod_noop(a.0 as int, b.0 as int, p);
    lemma_sub_mod_noop(a.1 as int, b.1 as int, p);
    lemma_mod_bound(x, p);
    lemma_mul_mod_noop_left(x, 0x1_0000_0000, p);
    lemma_mod_bound(x * 0x1_0000_0000, p);
    lemma_mod_bound(a.0 - b.0, p);
    lemma_add_mod_noop(a.0 - b.0, x * 0x1_0000_0000, p);
}

/// Inverses in the field are unique.
proof fn lemma_inverse_unique(g: u64, x: u64, y: u64)
    requires
        x < FIELD_ORDER,
        y < FIELD_ORDER,
        fp_mul(g, x) == 1,
        fp_mul(g, y) == 1,
    ensures
        x == y,
{
    let p = order();
    // x = x (g y) = (x g) y = y, all modulo p.
    lemma_mul_mod_noop_general(x as int, g * y, p);
    lemma_mul_mod_noop_general(g * x, y as int, p);
    assert(x * (g * y) == (g * x) * y) by (nonlinear_arith);
    lemma_small_mod(x as nat, p as nat);
    lemma_small_mod(y as nat, p as nat);
    assert((x as int * 1) % p == x);
    assert((1 * y as int) % p == y);
}

/// Computes the is-zero witness of `a` against `b`: whether the limb gap
/// `(a.lo - b.lo) + (a.hi - b.hi) * 2^32` vanishes in the field, and its
/// inverse when it does not. The witness meets the gadget's identities:
/// `gap * inv == 1 - equal` and `gap * equal == 0`.
pub fn fill_is_zero(a: (u64, u64), b: (u64, u64)) -> (w: IsZeroWitness)
    ensures
        w == is_zero_of(a, b),
        w.equal == 1 <==> ((a.0 - b.0) + (a.1 - b.1) * 0x1_0000_0000) % order() == 0,
        w.equal <= 1,
        w.inv < FIELD_ORDER,
        fp_mul(limb_gap(a, b), w.inv) == 1 - w.equal,
        fp_mul(limb_gap(a, b), w.equal) == 0,
{
    let two32 = felt_new(0x1_0000_0000);
    let lo = felt_sub(felt_new(a.0), felt_new(b.0));
    let hi = felt_mul(felt_sub(felt_new(a.1), felt_new(b.1)), two32);
    let g = felt_add(lo, hi);
    proof {
        lemma_small_mod(0x1_0000_0000, FIELD_ORDER as nat);
        lemma_limb_gap(a, b);
        lemma_small_mod(0, FIELD_ORDER as nat);
    }
    assert(g == limb_gap(a, b));
    if g == 0 {
        proof {
            lemma_small_mod(0, FIELD_ORDER as nat);
        }
        IsZeroWitness { equal: 1, inv: 0 }
    } else {
        let inv = felt_inverse(g);
        proof {
            let c = felt_inverse_spec(g);
            assert(inv < FIELD_ORDER && fp_mul(g, inv) == 1);
            lemma_inverse_unique(g, c, inv);
            lemma_small_mod(0, FIELD_ORDER as nat);
        }
        IsZeroWitness { equal: 0, inv }
    }
}

/// What the comparison family writes for one row.
#[derive(Clone, Copy, Debug, PartialEq, Eq, Structural)]
pub struct ComparisonWitness {
    /// The subtraction witness of a two-operand comparison.
    pub borrow: Option<BorrowWitness>,
    /// The is-zero witness of a comparison, an `eqz`, or a branch condition.
    pub is_zero: Option<IsZeroWitness>,
    /// The sign witness of the first operand of a signed comparison, or of a
    /// sign extension's source.
    pub sign_a: Option<SignWitness>,
    /// The sign witness of the second operand of a signed comparison.
    pub sign_b: Option<SignWitness>,
}

/// Whether an opcode tests one operand against zero.
pub open spec fn tests_zero(op: OpCode) -> bool {
    op == OpCode::I32Eqz || op == OpCode::I64Eqz || op == OpCode::Select || op == OpCode::If || op == OpCode::BrIf
}

/// The comparison witness of a row whose operator is `record.opcode`.
pub open spec fn comparison_of(record: StepRecord) -> ComparisonWitness {
    let reads = record.reads@;
    let op = record.opcode;
    if binary_compare(op) && reads.len() >= 2 {
        let l = limbs_of(reads[1].value);
        let r = limbs_of(reads[0].value);
        let wide = i64_compare(op);
        ComparisonWitness {
            borrow: Some(borrow_of(l, r)),
            is_zero: Some(is_zero_of(l, r)),
            sign_a: if signed_compare(op) {
                Some(sign_of(if wide { l.1 } else { l.0 }))
            } else {
                None
            },
            sign_b: if signed_compare(op) {
                Some(sign_of(if wide { r.1 } else { r.0 }))
            } else {
                None
            },
        }
    } else if !binary_compare(op) && tests_zero(op) && reads.len() >= 1 {
        ComparisonWitness { borrow: None, is_zero: Some(is_zero_of(limbs_of(reads[0].value), (0, 0))), sign_a: None, sign_b: None }
    } else if op == OpCode::I64ExtendI32S && reads.len() >= 1 {
        ComparisonWitness { borrow: None, is_zero: None, sign_a: Some(sign_of(limbs_of(reads[0].value).0)), sign_b: None }
    } else {
        ComparisonWitness { borrow: None, is_zero: None, sign_a: None, sign_b: None }
    }
}

/// A word's limbs, each below `2^32`.
fn limbs(w: Word) -> (r: (u64, u64))
    ensures
        r == limbs_of(w),
        is_limb(r.0) && is_limb(r.1),
{
    let r = w.to_limbs();
    proof {
        assert(word_bits(w) as int / 0x1_0000_0000 < 0x1_0000_0000);
    }
    r
}

/// The comparison family's witnesses for one row: for a two-operand
/// comparison the subtraction and is-zero witnesses of `lhs` against `rhs`,
/// and for a signed one the sign witnesses of the limbs that carry the signs;
/// for an `eqz` or a branch condition the is-zero witness of the operand; for
/// a sign extension the sign witness of its source. Nothing for other
/// operators, or when the record lacks the operands.
pub fn fill_comparison(record: &StepRecord) -> (w: ComparisonWitness)
    ensures
        w == comparison_of(*record),
{
    let none = ComparisonWitness { borrow: None, is_zero: None, sign_a: None, sign_b: None };
    let op = record.opcode;
    if is_binary_compare(op) {
        if record.reads.len() < 2 {
            return none;
        }
        let l = limbs(record.reads[1].value);
        let r = limbs(record.reads[0].value);
        let borrow = fill_borrow(l, r);
        let is_zero = fill_is_zero(l, r);
        let (sign_a, sign_b) = if is_signed_compare(op) {
            let wide = is_i64_compare(op);
            let a = fill_sign(if wide { l.1 } else { l.0 });
            let b = fill_sign(if wide { r.1 } else { r.0 });
            (Some(a), Some(b))
        } else {
            (None, None)
        };
        return ComparisonWitness { borrow: Some(borrow), is_zero: Some(is_zero), sign_a, sign_b };
    }
    match op {
        OpCode::I32Eqz | OpCode::I64Eqz | OpCode::Select | OpCode::If | OpCode::BrIf => {
            if record.reads.len() < 1 {
                return none;
            }
            let operand = limbs(record.reads[0].value);
            ComparisonWitness { borrow: None, is_zero: Some(fill_is_zero(operand, (0, 0))), sign_a: None, sign_b: None }
        },
        OpCode::I64ExtendI32S => {
            if record.reads.len() < 1 {
                return none;
            }
            let source = limbs(record.reads[0].value);
            ComparisonWitness { borrow: None, is_zero: None, sign_a: Some(fill_sign(source.0)), sign_b: None }
        },
        _ => none,
    }
}

/// Digit `k + j` of `v` is digit `j` of `v / base^k`.
proof fn lemma_digit_skip(v: nat, base: nat, k: nat, j: nat)
    requires
        base > 0,
    ensures
        digit(v, base, k + j) == digit(v / power(base, k), base, j),
    decreases k,
{
    if k > 0 {
        lemma_digit_skip(v / base, base, (k - 1) as nat, j);
        lemma_digit_shift(v, base, (k - 1 + j) as nat);
        lemma_power_positive(base, (k - 1) as nat);
        lemma_div_denominator(v as int, base as int, power(base, (k - 1) as nat) as int);
        assert(base * power(base, (k - 1) as nat) == power(base, k));
    } else {
        assert(v / 1 == v) by (nonlinear_arith);
    }
}

/// The low `n` digits split at `k` into the low `k` digits of `v` and the low
/// `n - k` digits of `v / base^k`.
proof fn lemma_digits_split(v: nat, base: nat, k: nat, n: nat)
    requires
        base > 0,
        k <= n,
    ensures
        digits(v, base, n).subrange(0, k as int) == digits(v, base, k),
        digits(v, base, n).subrange(k as int, n as int) == digits(v / power(base, k), base, (n - k) as nat),
{
    assert(digits(v, base, n).subrange(0, k as int) =~= digits(v, base, k));
    assert forall|j: int| 0 <= j < n - k implies #[trigger] digits(v, base, n).subrange(k as int, n as int)[j] == digits(
        v / power(base, k),
        base,
        (n - k) as nat,
    )[j] by {
        lemma_digit_skip(v, base, k, j as nat);
    }
    assert(digits(v, base, n).subrange(k as int, n as int) =~= digits(v / power(base, k), base, (n - k) as nat));
}

/// `16^8 = 2^32` and `16^16 = 2^64`.
proof fn lemma_nibble_powers()
    ensures
        power(16, 8) == 0x1_0000_0000,
        power(16, 16) == 0x1_0000_0000_0000_0000,
{
    reveal_with_fuel(power, 17);
}

/// A bitwise row's nibble witness: each operand split into sixteen nibbles,
/// least significant first, and the nibbles' ANDs.
pub struct BitwiseWitness {
    /// The first operand's nibbles.
    pub a: Vec<u64>,
    /// The second operand's nibbles.
    pub b: Vec<u64>,
    /// The nibbles' ANDs.
    pub p: Vec<u64>,
}

/// Whether `w` holds the nibbles of `left` and `right` and of their AND.
pub open spec fn nibbles_of(w: BitwiseWitness, left: u64, right: u64) -> bool {
    &&& w.a@ == digits(left as nat, 16, BW_NIBBLES as nat)
    &&& w.b@ == digits(right as nat, 16, BW_NIBBLES as nat)
    &&& w.p@ == digits((left & right) as nat, 16, BW_NIBBLES as nat)
}

/// Whether nibbles `d` recompose the two limbs of `v`, low limb from the low
/// half.
pub open spec fn recomposes_limbs(d: Seq<u64>, v: u64) -> bool {
    &&& digits_value(d.subrange(0, LIMB_NIBBLES as int), 16) == v as nat % 0x1_0000_0000
    &&& digits_value(d.subrange(LIMB_NIBBLES as int, BW_NIBBLES as int), 16) == v as nat / 0x1_0000_0000
}

/// The sixteen nibbles of `v` recompose its limbs.
proof fn lemma_nibbles_recompose(v: u64)
    ensures
        recomposes_limbs(digits(v as nat, 16, BW_NIBBLES as nat), v),
{
    lemma_nibble_powers();
    lemma_digits_split(v as nat, 16, LIMB_NIBBLES as nat, BW_NIBBLES as nat);
    law_digits_recompose(v as nat, 16, LIMB_NIBBLES as nat);
    law_digits_recompose(v as nat / 0x1_0000_0000, 16, LIMB_NIBBLES as nat);
    lemma_small_mod(v as nat / 0x1_0000_0000, 0x1_0000_0000);
}

/// The first and second operand of a two-operand row, as raw bits.
pub open spec fn operands_of(record: StepRecord) -> (u64, u64) {
    (word_bits(record.reads@[1].value), word_bits(record.reads@[0].value))
}

/// A word's raw bits, rebuilt from its limbs.
fn bits_of(w: Word) -> (r: u64)
    ensures
        r == word_bits(w),
{
    let l = w.to_limbs();
    l.0 + l.1 * 0x1_0000_0000
}

/// The bitwise family's witness for one row: for an `and`, `or` or `xor`,
/// the sixteen nibbles of each operand and of their AND. The nibbles
/// recompose each operand limb by limb, each AND nibble is the AND of the
/// operand nibbles, the AND nibbles recompose `left & right`, and `or` and
/// `xor` follow arithmetically from it. Nothing for other operators, or when
/// the record lacks the operands.
pub fn fill_bitwise(record: &StepRecord) -> (r: Option<BitwiseWitness>)
    ensures
        r is Some <==> bitwise(record.opcode) && record.reads@.len() >= 2,
        r matches Some(w) ==> ({
            let (left, right) = operands_of(*record);
            &&& nibbles_of(w, left, right)
            &&& forall|i: int| 0 <= i < BW_NIBBLES ==> #[trigger] w.p@[i] == w.a@[i] & w.b@[i]
            &&& recomposes_limbs(w.a@, left)
            &&& recomposes_limbs(w.b@, right)
            &&& recomposes_limbs(w.p@, left & right)
            &&& (left | right) == left + right - (left & right)
            &&& (left ^ right) == left + right - 2 * (left & right)
        }),
{
    if !is_bitwise(record.opcode) || record.reads.len() < 2 {
        return None;
    }
    let left = bits_of(record.reads[1].value);
    let right = bits_of(record.reads[0].value);
    let ghost both = left & right;
    let mut a: Vec<u64> = Vec::new();
    let mut b: Vec<u64> = Vec::new();
    let mut p: Vec<u64> = Vec::new();
    let mut rl = left;
    let mut rr = right;
    let mut i: usize = 0;
    assert(power(16, 0) == 1);
    assert(left as nat / 1 == left && right as nat / 1 == right && both as nat / 1 == both) by (nonlinear_arith);
    assert(digits(left as nat, 16, 0) =~= Seq::<u64>::empty());
    assert(digits(right as nat, 16, 0) =~= Seq::<u64>::empty());
    assert(digits(both as nat, 16, 0) =~= Seq::<u64>::empty());
    while i < BW_NIBBLES
        invariant
            i <= BW_NIBBLES,
            both == left & right,
            rl == left as nat / power(16, i as nat),
            rr == right as nat / power(16, i as nat),
            (rl & rr) == both as nat / power(16, i as nat),
            a@ == digits(left as nat, 16, i as nat),
            b@ == digits(right as nat, 16, i as nat),
            p@ == digits(both as nat, 16, i as nat),
            forall|j: int| 0 <= j < i ==> #[trigger] p@[j] == a@[j] & b@[j],
        decreases BW_NIBBLES - i,
    {
        let na = rl % 16;
        let nb = rr % 16;
        let np = na & nb;
        let ghost rb = rl & rr;
        proof {
            assert(np == rb % 16 && (rl / 16) & (rr / 16) == rb / 16) by (bit_vector)
                requires
                    na == rl % 16,
                    nb == rr % 16,
                    np == na & nb,
                    rb == rl & rr,
            ;
            lemma_power_positive(16, i as nat);
            lemma_div_denominator(left as int, power(16, i as nat) as int, 16);
            lemma_div_denominator(right as int, power(16, i as nat) as int, 16);
            lemma_div_denominator(both as int, power(16, i as nat) as int, 16);
            assert(power(16, i as nat) * 16 == power(16, (i + 1) as nat)) by (nonlinear_arith)
                requires
                    power(16, (i + 1) as nat) == 16 * power(16, i as nat),
            ;
        }
        a.push(na);
        b.push(nb);
        p.push(np);
        rl = rl / 16;
        rr = rr / 16;
        i = i + 1;
        assert(a@ =~= digits(left as nat, 16, i as nat));
        assert(b@ =~= digits(right as nat, 16, i as nat));
        assert(p@ =~= digits(both as nat, 16, i as nat));
    }
    proof {
        lemma_nibbles_recompose(left);
        lemma_nibbles_recompose(right);
        lemma_nibbles_recompose(both);
        assert((left | right) == left + right - (left & right) && (left ^ right) == left + right - 2 * (left & right))
            by (bit_vector);
    }
    Some(BitwiseWitness { a, b, p })
}

/// Zero has no one bits.
proof fn lemma_popcount_zero(n: nat)
    ensures
        popcount(0, n) == 0,
    decreases n,
{
    if n > 0 {
        lemma_popcount_zero((n - 1) as nat);
    }
}

/// The one bits among the low `a + b` bits are those among the low `a` and
/// those among the next `b`.
proof fn lemma_popcount_split(x: nat, a: nat, b: nat)
    ensures
        popcount(x, a + b) == popcount(x, a) + popcount(x / power(2, a), b),
    decreases a,
{
    if a == 0 {
        assert(x / 1 == x) by (nonlinear_arith);
    } else {
        lemma_popcount_split(x / 2, (a - 1) as nat, b);
        lemma_power_positive(2, (a - 1) as nat);
        lemma_div_denominator(x as int, 2, power(2, (a - 1) as nat) as int);
        assert((a - 1 + b) as nat == (a + b - 1) as nat);
    }
}

/// Only the low `n` bits count.
proof fn lemma_popcount_low(y: nat, n: nat)
    ensures
        popcount(y % power(2, n), n) == popcount(y, n),
    decreases n,
{
    if n > 0 {
        let q = power(2, (n - 1) as nat);
        lemma_power_positive(2, (n - 1) as nat);
        lemma_mod_breakdown(y as int, 2, q as int);
        let z = y % power(2, n);
        assert(z == 2 * ((y / 2) % q) + y % 2);
        assert(z % 2 == y % 2 && z / 2 == (y / 2) % q);
        lemma_popcount_low(y / 2, (n - 1) as nat);
    }
}

/// A value below `2^n` has no one bits above bit `n`.
proof fn lemma_popcount_wide(y: nat, n: nat, m: nat)
    requires
        y < power(2, n),
        n <= m,
    ensures
        popcount(y, m) == popcount(y, n),
{
    lemma_popcount_split(y, n, (m - n) as nat);
    assert((n + (m - n)) as nat == m);
    lemma_power_positive(2, n);
    let d = power(2, n);
    assert(y / d == 0) by (nonlinear_arith)
        requires
            0 <= y < d,
    ;
    lemma_popcount_zero((m - n) as nat);
}

/// The popcounts of the low `k` bytes of `x`, each over a 32-bit word.
pub open spec fn byte_counts(x: nat, k: nat) -> Seq<u64> {
    Seq::new(k, |i: int| popcount(digit(x, 256, i as nat), 32) as u64)
}

/// The sum of a sequence of counts.
pub open spec fn count_sum(s: Seq<u64>) -> nat
    decreases s.len(),
{
    if s.len() == 0 {
        0
    } else {
        s[0] as nat + count_sum(s.drop_first())
    }
}

/// The popcounts of the low `k` bytes add up to the popcount of the low `8k` bits.
proof fn lemma_byte_counts_sum(x: nat, k: nat)
    ensures
        count_sum(byte_counts(x, k)) == popcount(x, 8 * k),
    decreases k,
{
    if k > 0 {
        let s = byte_counts(x, k);
        lemma_byte_counts_sum(x / 256, (k - 1) as nat);
        assert forall|i: int| 0 <= i < k - 1 implies #[trigger] s.drop_first()[i] == byte_counts(x / 256, (k - 1) as nat)[i] by {
            lemma_digit_shift(x, 256, i as nat);
        }
        assert(s.drop_first() =~= byte_counts(x / 256, (k - 1) as nat));
        reveal_with_fuel(power, 9);
        assert(power(2, 8) == 256);
        assert(power(256, 0) == 1);
        assert(x / 1 == x) by (nonlinear_arith);
        let low = x % 256;
        assert(digit(x, 256, 0) == low);
        lemma_popcount_wide(low, 8, 32);
        lemma_popcount_low(x, 8);
        lemma_popcount_split(x, 8, (8 * (k - 1)) as nat);
        assert((8 + 8 * (k - 1)) as nat == 8 * k);
        assert(popcount(low, 32) < 0x1_0000_0000_0000_0000) by {
            lemma_popcount_bound(low, 32);
        }
    }
}

/// At most `n` of the low `n` bits are set.
proof fn lemma_popcount_bound(x: nat, n: nat)
    ensures
        popcount(x, n) <= n,
    decreases n,
{
    if n > 0 {
        lemma_popcount_bound(x / 2, (n - 1) as nat);
    }
}

/// A popcount row's byte witness: the operand's eight bytes, least
/// significant first, and each byte's popcount.
pub struct PopcountWitness {
    /// The operand's bytes.
    pub bytes: Vec<u64>,
    /// Each byte's popcount.
    pub counts: Vec<u64>,
}

/// The popcount family's witness for one row: for an `i32.popcnt` or
/// `i64.popcnt`, the operand's eight bytes and their popcounts. The bytes
/// recompose the operand limb by limb, and the popcounts add up to the
/// operand's. Nothing for other operators, or when the record lacks the
/// operand.
pub fn fill_popcount(record: &StepRecord) -> (r: Option<PopcountWitness>)
    ensures
        r is Some <==> (record.opcode == OpCode::I32Popcnt || record.opcode == OpCode::I64Popcnt)
            && record.reads@.len() >= 1,
        r matches Some(w) ==> ({
            let x = word_bits(record.reads@[0].value);
            &&& w.bytes@ == digits(x as nat, 256, POPCNT_BYTES as nat)
            &&& w.counts@ == byte_counts(x as nat, POPCNT_BYTES as nat)
            &&& digits_value(w.bytes@.subrange(0, LIMB_BYTES as int), 256) == x as nat % 0x1_0000_0000
            &&& digits_value(w.bytes@.subrange(LIMB_BYTES as int, POPCNT_BYTES as int), 256) == x as nat / 0x1_0000_0000
            &&& count_sum(w.counts@) == popcount(x as nat, 64)
        }),
{
    match record.opcode {
        OpCode::I32Popcnt | OpCode::I64Popcnt => {},
        _ => {
            return None;
        },
    }
    if record.reads.len() < 1 {
        return None;
    }
    let x = bits_of(record.reads[0].value);
    let bytes = write_bytes(x, POPCNT_BYTES);
    let mut counts: Vec<u64> = Vec::new();
    let mut i: usize = 0;
    assert(byte_counts(x as nat, 0) =~= Seq::<u64>::empty());
    while i < POPCNT_BYTES
        invariant
            i <= POPCNT_BYTES,
            bytes@ == digits(x as nat, 256, POPCNT_BYTES as nat),
            counts@ == byte_counts(x as nat, i as nat),
        decreases POPCNT_BYTES - i,
    {
        let c = count_ones(bytes[i], 32);
        counts.push(c);
        i = i + 1;
        assert(counts@ =~= byte_counts(x as nat, i as nat));
    }
    proof {
        reveal_with_fuel(power, 9);
        assert(power(256, 4) == 0x1_0000_0000);
        lemma_digits_split(x as nat, 256, LIMB_BYTES as nat, POPCNT_BYTES as nat);
        law_digits_recompose(x as nat, 256, LIMB_BYTES as nat);
        law_digits_recompose(x as nat / 0x1_0000_0000, 256, LIMB_BYTES as nat);
        lemma_small_mod(x as nat / 0x1_0000_0000, 0x1_0000_0000);
        lemma_byte_counts_sum(x as nat, POPCNT_BYTES as nat);
    }
    Some(PopcountWitness { bytes, counts })
}

/// The program-data pair of a row: a constant's limbs, or a two-way branch's
/// targets.
pub open spec fn pcdata_of(record: StepRecord, func: LiftedFunction) -> Option<(u64, u64)> {
    let op = record.opcode;
    if op == OpCode::I32Const || op == OpCode::I64Const {
        if record.writes@.len() >= 1 {
            Some(limbs_of(record.writes@[0].value))
        } else {
            None
        }
    } else if op == OpCode::If || op == OpCode::BrIf {
        if record.pc < func.schedules@.len() {
            match func.schedules@[record.pc as int].successors {
                Successors::Branch { taken, not_taken } => Some((taken as u64, not_taken as u64)),
                _ => None,
            }
        } else {
            None
        }
    } else {
        None
    }
}

/// The program-data pair the control family reads for one row: for a
/// constant, the limbs of the value it pushes; for an `if` or `br_if`, the
/// taken and not-taken targets its schedule names. Nothing for other
/// operators, or when the record or schedule lacks them.
pub fn fill_pcdata(record: &StepRecord, func: &LiftedFunction) -> (r: Option<(u64, u64)>)
    ensures
        r == pcdata_of(*record, *func),
{
    match record.opcode {
        OpCode::I32Const | OpCode::I64Const => {
            if record.writes.len() >= 1 {
                Some(limbs(record.writes[0].value))
            } else {
                None
            }
        },
        OpCode::If | OpCode::BrIf => {
            let pc = record.pc as usize;
            if pc < func.schedules.len() {
                match &func.schedules[pc].successors {
                    Successors::Branch { taken, not_taken } => Some((*taken as u64, *not_taken as u64)),
                    _ => None,
                }
            } else {
                None
            }
        },
        _ => None,
    }
}

/// One entry of the address-sorted log as the trace lays it down.
#[derive(Clone, Copy, Debug, PartialEq, Eq, Structural)]
pub struct LogEntry {
    /// The access at this position of the sorted log.
    pub access: Access,
    /// Whether the entry continues its predecessor's address.
    pub same_addr: bool,
    /// The step from its predecessor, less one: between timestamps within an
    /// address, between addresses across them. Zero for the first entry.
    pub gap: u64,
}

/// Whether `cur` comes strictly after `prev`: a later timestamp at the same
/// address, or a higher address.
pub open spec fn strictly_after(prev: Access, cur: Access) -> bool {
    if prev.address == cur.address {
        prev.timestamp < cur.timestamp
    } else {
        prev.address < cur.address
    }
}

/// Whether every entry of `s` comes strictly after its predecessor.
pub open spec fn log_strict(s: Seq<Access>) -> bool {
    forall|i: int| 0 < i < s.len() ==> #[trigger] strictly_after(s[i - 1], s[i])
}

/// The first position of `s` whose entry does not come strictly after its
/// predecessor.
pub open spec fn first_unordered(s: Seq<Access>) -> int {
    choose|i: int|
        0 < i < s.len() && !#[trigger] strictly_after(s[i - 1], s[i]) && forall|j: int|
            0 < j < i ==> #[trigger] strictly_after(s[j - 1], s[j])
}

/// Position `i` of the laid-down log over the sorted accesses `s`.
pub open spec fn log_entry(s: Seq<Access>, i: int) -> LogEntry {
    if i <= 0 {
        LogEntry { access: s[i], same_addr: false, gap: 0 }
    } else {
        let same = s[i - 1].address == s[i].address;
        LogEntry {
            access: s[i],
            same_addr: same,
            gap: (if same {
                s[i].timestamp - s[i - 1].timestamp - 1
            } else {
                s[i].address - s[i - 1].address - 1
            }) as u64,
        }
    }
}

/// The first unordered position is `i` when every earlier one is ordered.
proof fn lemma_first_unordered(s: Seq<Access>, i: int)
    requires
        0 < i < s.len(),
        !strictly_after(s[i - 1], s[i]),
        forall|j: int| 0 < j < i ==> #[trigger] strictly_after(s[j - 1], s[j]),
    ensures
        !log_strict(s),
        first_unordered(s) == i,
{
    let c = first_unordered(s);
    assert(!strictly_after(s[i - 1], s[i]));
    if c < i {
        assert(strictly_after(s[c - 1], s[c]));
    } else if c > i {
        assert(strictly_after(s[i - 1], s[i]));
    }
}

/// Lays down the address-sorted log: the accesses sorted by address then
/// timestamp, each entry marked when it continues its predecessor's address
/// and carrying its step from the predecessor less one, which the range check
/// decomposes. Fails, naming the position, at the first entry that does not
/// come strictly after its predecessor.
pub fn fill_sorted_log(accesses: &[Access]) -> (r: Result<Vec<LogEntry>, TraceError>)
    ensures
        ({
            let s = sort_by_key(accesses@);
            &&& log_strict(s) ==> (r matches Ok(v) && v@ == Seq::new(s.len(), |i: int| log_entry(s, i)))
            &&& !log_strict(s) ==> r == Err::<Vec<LogEntry>, TraceError>(
                TraceError::AccessLogNotStrictlyOrdered { position: first_unordered(s) as usize },
            )
        }),
{
    let sorted = sort_accesses(accesses);
    let ghost s = sorted@;
    let mut out: Vec<LogEntry> = Vec::new();
    let mut position: usize = 0;
    while position < sorted.len()
        invariant
            s == sorted@,
            s == sort_by_key(accesses@),
            position <= s.len(),
            out@ == Seq::new(position as nat, |i: int| log_entry(s, i)),
            forall|j: int| 0 < j < position ==> #[trigger] strictly_after(s[j - 1], s[j]),
        decreases sorted.len() - position,
    {
        let access = sorted[position];
        let entry = if position == 0 {
            LogEntry { access, same_addr: false, gap: 0 }
        } else {
            let prev = sorted[position - 1];
            let same_addr = prev.address == access.address;
            let ordered = if same_addr {
                prev.timestamp < access.timestamp
            } else {
                prev.address < access.address
            };
            if !ordered {
                proof {
                    lemma_first_unordered(s, position as int);
                }
                return Err(TraceError::AccessLogNotStrictlyOrdered { position });
            }
            let gap = if same_addr {
                access.timestamp - prev.timestamp - 1
            } else {
                access.address - prev.address - 1
            };
            LogEntry { access, same_addr, gap }
        };
        out.push(entry);
        position = position + 1;
        assert(out@ =~= Seq::new(position as nat, |i: int| log_entry(s, i)));
    }
    Ok(out)
}

/// Whether no two entries of `s` share a timestamp.
pub open spec fn timestamps_distinct(s: Seq<Access>) -> bool {
    forall|i: int, j: int| 0 <= i < j < s.len() ==> #[trigger] s[i].timestamp != #[trigger] s[j].timestamp
}

/// Sorting keeps timestamps distinct: it only reorders the entries.
proof fn lemma_sort_keeps_timestamps_distinct(s: Seq<Access>)
    requires
        timestamps_distinct(s),
    ensures
        timestamps_distinct(sort_by_key(s)),
    decreases s.len(),
{
    if s.len() > 0 {
        let s0 = s.drop_last();
        let x = s.last();
        assert(timestamps_distinct(s0)) by {
            assert forall|i: int, j: int| 0 <= i < j < s0.len() implies #[trigger] s0[i].timestamp
                != #[trigger] s0[j].timestamp by {
                assert(s0[i] == s[i] && s0[j] == s[j]);
            }
        }
        lemma_sort_keeps_timestamps_distinct(s0);
        let u = sort_by_key(s0);
        law_sorted_log_is_ordered_permutation(s0);
        let k = lemma_insertion_point_exists(u, x, access_order());
        lemma_insert_at(u, x, k, access_order());
        assert(sort_by_key(s) == u.insert(k, x));
        assert forall|m: int| 0 <= m < u.len() implies #[trigger] u[m].timestamp != x.timestamp by {
            to_multiset_contains(u, u[m]);
            to_multiset_contains(s0, u[m]);
            assert(u.contains(u[m]));
            let n = choose|n: int| 0 <= n < s0.len() && s0[n] == u[m];
            assert(s[n] == s0[n]);
            assert(s[s.len() - 1] == x);
        }
        let t = u.insert(k, x);
        assert forall|i: int, j: int| 0 <= i < j < t.len() implies #[trigger] t[i].timestamp != #[trigger] t[j].timestamp by {
            if i < k {
                if j < k {
                    assert(t[i] == u[i] && t[j] == u[j]);
                } else if j == k {
                    assert(t[i] == u[i] && t[j] == x);
                } else {
                    assert(t[i] == u[i] && t[j] == u[j - 1]);
                }
            } else if i == k {
                assert(t[i] == x && t[j] == u[j - 1]);
            } else {
                assert(t[i] == u[i - 1] && t[j] == u[j - 1]);
            }
        }
    }
}

/// The unified log of an execution, sorted, comes strictly ordered: every
/// access carries its own timestamp, so no entry repeats its predecessor's
/// key, and laying the log down never fails.
pub proof fn law_stream_log_is_strict(records: Seq<StepRecord>, frame: ExecFrame)
    requires
        records.len() * BUS_SLOTS <= usize::MAX,
    ensures
        stream_spec(records, frame) matches Ok(s) ==> log_strict(sort_by_key(s)),
{
    law_stream_timestamps_increase(records, frame);
    if let Ok(s) = stream_spec(records, frame) {
        assert(timestamps_distinct(s)) by {
            assert forall|i: int, j: int| 0 <= i < j < s.len() implies #[trigger] s[i].timestamp
                != #[trigger] s[j].timestamp by {
                assert(s[i].timestamp < s[j].timestamp);
            }
        }
        lemma_sort_keeps_timestamps_distinct(s);
        law_sorted_log_is_ordered_permutation(s);
        let t = sort_by_key(s);
        assert forall|i: int| 0 < i < t.len() implies #[trigger] strictly_after(t[i - 1], t[i]) by {
            assert(access_order()(t[i - 1], t[i]));
            assert(t[i - 1].timestamp != t[i].timestamp);
        }
    }
}

/// An `if` or `br_if` row reads its branch's targets taken first: the first
/// component of its program-data pair is the target its schedule takes when
/// the condition holds, the second the one it falls to otherwise.
pub proof fn law_branch_data_names_the_taken_target_first(record: StepRecord, func: LiftedFunction, taken: u32, not_taken: u32)
    requires
        record.opcode == OpCode::If || record.opcode == OpCode::BrIf,
        record.pc < func.schedules@.len(),
        func.schedules@[record.pc as int].successors == (Successors::Branch { taken, not_taken }),
    ensures
        pcdata_of(record, func) matches Some(d) && d.0 == taken as u64 && d.1 == not_taken as u64,
{
}

/// A constant row's program data are the limbs of the value it pushes: the
/// low limb below `2^32`, and together the pushed word's bits.
pub proof fn law_constant_data_are_the_pushed_limbs(record: StepRecord, func: LiftedFunction)
    requires
        record.opcode == OpCode::I32Const || record.opcode == OpCode::I64Const,
        record.writes@.len() >= 1,
    ensures
        pcdata_of(record, func) matches Some(d) && d.0 < 0x1_0000_0000 && d.0 + d.1 * 0x1_0000_0000 == word_bits(
            record.writes@[0].value,
        ),
{
    let b = word_bits(record.writes@[0].value);
    vstd::arithmetic::div_mod::lemma_fundamental_div_mod(b as int, 0x1_0000_0000);
}

} // verus!
