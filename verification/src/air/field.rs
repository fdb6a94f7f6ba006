//! The Goldilocks field and its quadratic extension, carried by canonical
//! values: a field element by its residue below [`FIELD_ORDER`], an extension
//! element `c0 + c1 * X`, with `X^2 = 7`, by its two coefficients.

use vstd::prelude::*;
use vstd::arithmetic::div_mod::{
    lemma_add_mod_noop, lemma_mod_twice, lemma_mul_mod_noop_left, lemma_mul_mod_noop_right, lemma_small_mod,
};
use vstd::arithmetic::mul::{
    lemma_mul_is_associative, lemma_mul_is_commutative, lemma_mul_is_distributive_add,
    lemma_mul_is_distributive_add_other_way,
};
use p3_field::extension::BinomialExtensionField;
use p3_field::{BasedVectorSpace, Field, PrimeField64};
use p3_goldilocks::Goldilocks;
use crate::air::constraints::FIELD_ORDER;

verus! {

/// The field order as an integer.
pub open spec fn order() -> int {
    FIELD_ORDER as int
}

/// `a + b` in the field.
pub open spec fn fp_add(a: u64, b: u64) -> u64 {
    ((a + b) % order()) as u64
}

/// `a - b` in the field.
pub open spec fn fp_sub(a: u64, b: u64) -> u64 {
    ((a - b) % order()) as u64
}

/// `a * b` in the field.
pub open spec fn fp_mul(a: u64, b: u64) -> u64 {
    ((a * b) % order()) as u64
}

/// The field element an integer `v` denotes.
pub fn felt_new(v: u64) -> (r: u64)
    ensures
        r == v % FIELD_ORDER,
        r < FIELD_ORDER,
{
    v % FIELD_ORDER
}

/// `a + b` in the field.
pub fn felt_add(a: u64, b: u64) -> (r: u64)
    requires
        a < FIELD_ORDER,
        b < FIELD_ORDER,
    ensures
        r == fp_add(a, b),
        r < FIELD_ORDER,
{
    let s: u128 = a as u128 + b as u128;
    (s % (FIELD_ORDER as u128)) as u64
}

/// `a - b` in the field.
pub fn felt_sub(a: u64, b: u64) -> (r: u64)
    requires
        a < FIELD_ORDER,
        b < FIELD_ORDER,
    ensures
        r == fp_sub(a, b),
        r < FIELD_ORDER,
{
    let s: u128 = a as u128 + FIELD_ORDER as u128 - b as u128;
    proof {
        lemma_add_mod_noop(a - b, order(), order());
        lemma_mod_twice(a - b, order());
        assert((a - b + order()) % order() == (a - b) % order());
    }
    (s % (FIELD_ORDER as u128)) as u64
}

/// `a * b` in the field.
pub fn felt_mul(a: u64, b: u64) -> (r: u64)
    ensures
        r == fp_mul(a, b),
        r < FIELD_ORDER,
{
    assert(a as int * b as int <= u128::MAX) by (nonlinear_arith)
        requires
            a <= u64::MAX,
            b <= u64::MAX,
    ;
    let p: u128 = a as u128 * b as u128;
    (p % (FIELD_ORDER as u128)) as u64
}

/// A field element has at most one inverse.
pub proof fn lemma_inverse_unique(a: u64, r: u64, c: u64)
    requires
        r < FIELD_ORDER,
        c < FIELD_ORDER,
        fp_mul(a, r) == 1,
        fp_mul(a, c) == 1,
    ensures
        r == c,
{
    let p = order();
    let (ai, ri, ci) = (a as int, r as int, c as int);
    assert((ai * ri) % p == 1);
    assert((ai * ci) % p == 1);
    lemma_small_mod(r as nat, p as nat);
    lemma_small_mod(c as nat, p as nat);
    lemma_mul_mod_noop_right(ri, ai * ci, p);
    assert(ri * ((ai * ci) % p) == ri);
    assert(ri == (ri * (ai * ci)) % p);
    lemma_mul_is_associative(ri, ai, ci);
    assert(ri * (ai * ci) == (ri * ai) * ci);
    lemma_mul_mod_noop_left(ri * ai, ci, p);
    lemma_mul_is_commutative(ri, ai);
    let m = (ri * ai) % p;
    assert(m == 1);
    assert(m * ci == ci) by (nonlinear_arith)
        requires
            m == 1,
    ;
    assert(ri == ci);
}

/// Inverts a nonzero base-field element with p3's `Field::inverse` on
/// `Goldilocks`, which panics on zero. The contract claims the result is the
/// canonical element whose product with `a` is one.
#[verifier::external_body]
pub(crate) fn felt_inverse(a: u64) -> (r: u64)
    requires
        0 < a < FIELD_ORDER,
    ensures
        r < FIELD_ORDER,
        fp_mul(a, r) == 1,
{
    Goldilocks::new(a).inverse().as_canonical_u64()
}

/// An element `c0 + c1 * X` of the quadratic extension `F[X] / (X^2 - 7)`.
#[derive(Clone, Copy, Debug, PartialEq, Eq, Structural)]
pub struct Ext {
    /// The constant coefficient.
    pub c0: u64,
    /// The coefficient of `X`.
    pub c1: u64,
}

/// The non-residue `W` with `X^2 = W`.
pub const EXT_W: u64 = 7;

/// Whether both coefficients are canonical.
pub open spec fn ext_canonical(a: Ext) -> bool {
    a.c0 < FIELD_ORDER && a.c1 < FIELD_ORDER
}

/// The extension element a base-field element `f` embeds as.
pub open spec fn ext_of(f: u64) -> Ext {
    Ext { c0: f, c1: 0 }
}

/// Zero of the extension.
pub open spec fn ext_zero() -> Ext {
    Ext { c0: 0, c1: 0 }
}

/// One of the extension.
pub open spec fn ext_one() -> Ext {
    Ext { c0: 1, c1: 0 }
}

/// `a + b` in the extension.
pub open spec fn ext_add_spec(a: Ext, b: Ext) -> Ext {
    Ext { c0: fp_add(a.c0, b.c0), c1: fp_add(a.c1, b.c1) }
}

/// `a - b` in the extension.
pub open spec fn ext_sub_spec(a: Ext, b: Ext) -> Ext {
    Ext { c0: fp_sub(a.c0, b.c0), c1: fp_sub(a.c1, b.c1) }
}

/// `a * b` in the extension: `(a0 + a1 X)(b0 + b1 X) = a0 b0 + 7 a1 b1 + (a0 b1 + a1 b0) X`.
pub open spec fn ext_mul_spec(a: Ext, b: Ext) -> Ext {
    Ext {
        c0: ((a.c0 * b.c0 + EXT_W * (a.c1 * b.c1)) % order()) as u64,
        c1: ((a.c0 * b.c1 + a.c1 * b.c0) % order()) as u64,
    }
}

/// The embedding of base-field element `f`.
pub fn ext_from(f: u64) -> (r: Ext)
    ensures
        r == ext_of(f),
{
    Ext { c0: f, c1: 0 }
}

/// `a + b` in the extension.
pub fn ext_add(a: Ext, b: Ext) -> (r: Ext)
    requires
        ext_canonical(a),
        ext_canonical(b),
    ensures
        r == ext_add_spec(a, b),
        ext_canonical(r),
{
    Ext { c0: felt_add(a.c0, b.c0), c1: felt_add(a.c1, b.c1) }
}

/// `a - b` in the extension.
pub fn ext_sub(a: Ext, b: Ext) -> (r: Ext)
    requires
        ext_canonical(a),
        ext_canonical(b),
    ensures
        r == ext_sub_spec(a, b),
        ext_canonical(r),
{
    Ext { c0: felt_sub(a.c0, b.c0), c1: felt_sub(a.c1, b.c1) }
}

/// `a * b` in the extension.
pub fn ext_mul(a: Ext, b: Ext) -> (r: Ext)
    ensures
        r == ext_mul_spec(a, b),
        ext_canonical(r),
{
    let m00 = felt_mul(a.c0, b.c0);
    let m11 = felt_mul(a.c1, b.c1);
    let w11 = felt_mul(EXT_W, m11);
    let m01 = felt_mul(a.c0, b.c1);
    let m10 = felt_mul(a.c1, b.c0);
    proof {
        let p = order();
        lemma_mul_mod_noop_right(EXT_W as int, a.c1 * b.c1, p);
        lemma_add_mod_noop(a.c0 * b.c0, EXT_W * (a.c1 * b.c1), p);
        lemma_add_mod_noop(a.c0 * b.c1, a.c1 * b.c0, p);
    }
    Ext { c0: felt_add(m00, w11), c1: felt_add(m01, m10) }
}

/// The canonical extension element whose product with `a` is one.
#[verifier::opaque]
pub open spec fn ext_inverse_spec(a: Ext) -> Ext {
    choose|x: Ext| ext_canonical(x) && ext_mul_spec(a, x) == ext_one()
}

/// `((u % p) + (v % p)) % p` is `(u + v) % p`, and a factor reduced mod `p`
/// leaves a product's residue unchanged.
proof fn lemma_mod_sum_of_products(x0: int, b0: int, w: int, x1: int, b1: int)
    ensures
        (x0 * (b0 % order()) + w * (x1 * (b1 % order()))) % order() == (x0 * b0 + w * (x1 * b1)) % order(),
{
    let p = order();
    lemma_mul_mod_noop_right(x0, b0, p);
    lemma_mul_mod_noop_right(w * x1, b1, p);
    assert(w * (x1 * (b1 % p)) == (w * x1) * (b1 % p)) by (nonlinear_arith);
    assert(w * (x1 * b1) == (w * x1) * b1) by (nonlinear_arith);
    lemma_add_mod_noop(x0 * (b0 % p), w * (x1 * (b1 % p)), p);
    lemma_add_mod_noop(x0 * b0, w * (x1 * b1), p);
}

/// Multiplication in the extension is associative.
proof fn lemma_ext_mul_assoc(x: Ext, a: Ext, y: Ext)
    ensures
        ext_mul_spec(x, ext_mul_spec(a, y)) == ext_mul_spec(ext_mul_spec(x, a), y),
{
    let p = order();
    let w = EXT_W as int;
    let (x0, x1, a0, a1, y0, y1) = (x.c0 as int, x.c1 as int, a.c0 as int, a.c1 as int, y.c0 as int, y.c1 as int);
    let b0 = a0 * y0 + w * (a1 * y1);
    let b1 = a0 * y1 + a1 * y0;
    let c0 = x0 * a0 + w * (x1 * a1);
    let c1 = x0 * a1 + x1 * a0;
    lemma_mod_sum_of_products(x0, b0, w, x1, b1);
    lemma_mod_sum_of_products(x0, b1, 1, x1, b0);
    lemma_mul_mod_noop_right(y0, c0, p);
    lemma_mul_mod_noop_right(w * y1, c1, p);
    lemma_mul_mod_noop_right(y1, c0, p);
    lemma_mul_mod_noop_right(y0, c1, p);
    assert((c0 % p) * y0 == y0 * (c0 % p) && c0 * y0 == y0 * c0) by (nonlinear_arith);
    assert(w * ((c1 % p) * y1) == (w * y1) * (c1 % p) && w * (c1 * y1) == (w * y1) * c1) by (nonlinear_arith);
    assert((c0 % p) * y1 == y1 * (c0 % p) && c0 * y1 == y1 * c0) by (nonlinear_arith);
    assert((c1 % p) * y0 == y0 * (c1 % p) && c1 * y0 == y0 * c1) by (nonlinear_arith);
    lemma_add_mod_noop((c0 % p) * y0, w * ((c1 % p) * y1), p);
    lemma_add_mod_noop(c0 * y0, w * (c1 * y1), p);
    lemma_add_mod_noop((c0 % p) * y1, (c1 % p) * y0, p);
    lemma_add_mod_noop(c0 * y1, c1 * y0, p);
    lemma_mul_is_distributive_add(x0, a0 * y0, w * (a1 * y1));
    lemma_mul_is_distributive_add(x1, a0 * y1, a1 * y0);
    lemma_mul_is_distributive_add(w, x1 * (a0 * y1), x1 * (a1 * y0));
    lemma_mul_is_distributive_add_other_way(y0, x0 * a0, w * (x1 * a1));
    lemma_mul_is_distributive_add_other_way(y1, x0 * a1, x1 * a0);
    lemma_mul_is_distributive_add(w, (x0 * a1) * y1, (x1 * a0) * y1);
    lemma_mul_is_distributive_add(x0, a0 * y1, a1 * y0);
    lemma_mul_is_distributive_add(x1, a0 * y0, w * (a1 * y1));
    lemma_mul_is_distributive_add_other_way(y0, x0 * a1, x1 * a0);
    assert(x0 * (a0 * y0) == (x0 * a0) * y0) by (nonlinear_arith);
    assert(x0 * (w * (a1 * y1)) == w * ((x0 * a1) * y1)) by (nonlinear_arith);
    assert(w * (x1 * (a0 * y1)) == w * ((x1 * a0) * y1)) by (nonlinear_arith);
    assert(w * (x1 * (a1 * y0)) == (w * (x1 * a1)) * y0) by (nonlinear_arith);
    assert(x0 * (a0 * y1) == (x0 * a0) * y1) by (nonlinear_arith);
    assert(x0 * (a1 * y0) == (x0 * a1) * y0) by (nonlinear_arith);
    assert(x1 * (a0 * y0) == (x1 * a0) * y0) by (nonlinear_arith);
    assert(x1 * (w * (a1 * y1)) == (w * (x1 * a1)) * y1) by (nonlinear_arith);
    assert(x0 * b0 + w * (x1 * b1) == c0 * y0 + w * (c1 * y1));
    assert(x0 * b1 + 1 * (x1 * b0) == c0 * y1 + c1 * y0) by {
        lemma_mul_is_distributive_add_other_way(y1, x0 * a0, w * (x1 * a1));
        assert(1 * (x1 * b0) == x1 * b0);
    }
    assert(ext_mul_spec(x, ext_mul_spec(a, y)).c0 == ext_mul_spec(ext_mul_spec(x, a), y).c0);
    assert(ext_mul_spec(x, ext_mul_spec(a, y)).c1 == ext_mul_spec(ext_mul_spec(x, a), y).c1);
}

/// Inverses in the extension are unique.
proof fn lemma_ext_inverse_unique(a: Ext, x: Ext, y: Ext)
    requires
        ext_canonical(x),
        ext_canonical(y),
        ext_mul_spec(a, x) == ext_one(),
        ext_mul_spec(a, y) == ext_one(),
    ensures
        x == y,
{
    let p = order();
    lemma_ext_mul_assoc(x, a, y);
    assert(ext_mul_spec(x, a) == ext_mul_spec(a, x)) by {
        assert(x.c0 * a.c0 + EXT_W * (x.c1 * a.c1) == a.c0 * x.c0 + EXT_W * (a.c1 * x.c1)) by (nonlinear_arith);
        assert(x.c0 * a.c1 + x.c1 * a.c0 == a.c0 * x.c1 + a.c1 * x.c0) by (nonlinear_arith);
    }
    lemma_small_mod(x.c0 as nat, p as nat);
    lemma_small_mod(x.c1 as nat, p as nat);
    lemma_small_mod(y.c0 as nat, p as nat);
    lemma_small_mod(y.c1 as nat, p as nat);
    assert(x.c0 * 1 + EXT_W * (x.c1 * 0) == x.c0 && x.c0 * 0 + x.c1 * 1 == x.c1) by (nonlinear_arith);
    assert(1 * y.c0 + EXT_W * (0 * y.c1) == y.c0 && 1 * y.c1 + 0 * y.c0 == y.c1) by (nonlinear_arith);
    assert(ext_mul_spec(x, ext_one()) == x);
    assert(ext_mul_spec(ext_one(), y) == y);
}

/// An extension element with an inverse has exactly that one as
/// [`ext_inverse_spec`].
pub proof fn lemma_ext_inverse_is(a: Ext, x: Ext)
    requires
        ext_canonical(x),
        ext_mul_spec(a, x) == ext_one(),
    ensures
        ext_inverse_spec(a) == x,
{
    reveal(ext_inverse_spec);
    let c = ext_inverse_spec(a);
    assert(ext_canonical(c) && ext_mul_spec(a, c) == ext_one());
    lemma_ext_inverse_unique(a, c, x);
}

/// Inverts an extension element with p3's
/// `BinomialExtensionField::<Goldilocks, 2>::try_inverse`: it returns `None`
/// for zero and otherwise an element, in canonical form, whose product with
/// `a` is one.
#[verifier::external_body]
pub(crate) fn ext_try_inverse(a: Ext) -> (r: Option<Ext>)
    requires
        ext_canonical(a),
    ensures
        r is None <==> a == ext_zero(),
        r matches Some(x) ==> ext_canonical(x) && ext_mul_spec(a, x) == ext_one(),
{
    let e = BinomialExtensionField::<Goldilocks, 2>::new([Goldilocks::new(a.c0), Goldilocks::new(a.c1)]);
    match e.try_inverse() {
        Some(x) => {
            let c: &[Goldilocks] = x.as_basis_coefficients_slice();
            Some(Ext { c0: c[0].as_canonical_u64(), c1: c[1].as_canonical_u64() })
        },
        None => None,
    }
}

/// The sum of `term` over `s`, added left to right from zero.
pub open spec fn ext_sum<T>(s: Seq<T>, term: spec_fn(T) -> Ext) -> Ext
    decreases s.len(),
{
    if s.len() == 0 {
        ext_zero()
    } else {
        ext_add_spec(ext_sum(s.drop_last(), term), term(s.last()))
    }
}

/// Field addition is associative.
proof fn lemma_fp_add_assoc(a: u64, b: u64, c: u64)
    ensures
        fp_add(fp_add(a, b), c) == fp_add(a, fp_add(b, c)),
{
    let p = order();
    lemma_add_mod_noop(a + b, c as int, p);
    lemma_add_mod_noop(a as int, b + c, p);
    lemma_mod_twice(c as int, p);
    lemma_mod_twice(a as int, p);
    assert(((a + b) % p) + (c as int % p) == ((a + b) % p) % p + (c as int % p));
    assert((a as int % p) + ((b + c) % p) == (a as int % p) + ((b + c) % p) % p);
    lemma_add_mod_noop((a + b) % p, c as int, p);
    lemma_add_mod_noop(a as int, (b + c) % p, p);
}

/// Extension addition is associative.
pub proof fn lemma_ext_add_assoc(a: Ext, b: Ext, c: Ext)
    ensures
        ext_add_spec(ext_add_spec(a, b), c) == ext_add_spec(a, ext_add_spec(b, c)),
{
    lemma_fp_add_assoc(a.c0, b.c0, c.c0);
    lemma_fp_add_assoc(a.c1, b.c1, c.c1);
}

/// Extension addition is commutative.
pub proof fn lemma_ext_add_comm(a: Ext, b: Ext)
    ensures
        ext_add_spec(a, b) == ext_add_spec(b, a),
{
}

/// A sum is canonical.
proof fn lemma_ext_sum_canonical<T>(s: Seq<T>, term: spec_fn(T) -> Ext)
    ensures
        ext_canonical(ext_sum(s, term)),
    decreases s.len(),
{
    if s.len() > 0 {
        lemma_ext_sum_canonical(s.drop_last(), term);
    }
}

/// Summing a concatenation sums its parts.
pub proof fn lemma_ext_sum_concat<T>(a: Seq<T>, b: Seq<T>, term: spec_fn(T) -> Ext)
    ensures
        ext_sum(a + b, term) == ext_add_spec(ext_sum(a, term), ext_sum(b, term)),
    decreases b.len(),
{
    lemma_ext_sum_canonical(a, term);
    if b.len() == 0 {
        assert(a + b =~= a);
        let x = ext_sum(a, term);
        lemma_small_mod(x.c0 as nat, order() as nat);
        lemma_small_mod(x.c1 as nat, order() as nat);
    } else {
        lemma_ext_sum_concat(a, b.drop_last(), term);
        assert((a + b).drop_last() =~= a + b.drop_last());
        assert((a + b).last() == b.last());
        lemma_ext_add_assoc(ext_sum(a, term), ext_sum(b.drop_last(), term), term(b.last()));
    }
}

/// Inserting an element anywhere adds its term to the sum.
proof fn lemma_ext_sum_insert<T>(s: Seq<T>, i: int, x: T, term: spec_fn(T) -> Ext)
    requires
        0 <= i <= s.len(),
    ensures
        ext_sum(s.insert(i, x), term) == ext_add_spec(ext_sum(s, term), term(x)),
{
    let l = s.subrange(0, i);
    let r = s.subrange(i, s.len() as int);
    assert(s.insert(i, x) =~= (l + seq![x]) + r);
    assert(s =~= l + r);
    lemma_ext_sum_concat(l + seq![x], r, term);
    lemma_ext_sum_concat(l, seq![x], term);
    lemma_ext_sum_concat(l, r, term);
    assert(seq![x].drop_last() =~= Seq::<T>::empty());
    let sl = ext_sum(l, term);
    let sr = ext_sum(r, term);
    let tx = term(x);
    let one = seq![x];
    assert(one.len() == 1 && one.last() == x);
    assert(one.drop_last() =~= Seq::<T>::empty());
    assert(ext_sum(one.drop_last(), term) == ext_zero());
    assert(ext_sum(seq![x], term) == ext_add_spec(ext_zero(), tx));
    lemma_ext_add_assoc(sl, ext_zero(), tx);
    lemma_ext_sum_canonical(l, term);
    lemma_small_mod(sl.c0 as nat, order() as nat);
    lemma_small_mod(sl.c1 as nat, order() as nat);
    assert(ext_add_spec(sl, ext_zero()) == sl);
    lemma_ext_add_assoc(sl, tx, sr);
    lemma_ext_add_comm(tx, sr);
    lemma_ext_add_assoc(sl, sr, tx);
}

/// Sums over sequences holding the same elements, equally often, are equal.
pub proof fn lemma_ext_sum_permutation<T>(a: Seq<T>, b: Seq<T>, term: spec_fn(T) -> Ext)
    requires
        a.to_multiset() == b.to_multiset(),
    ensures
        ext_sum(a, term) == ext_sum(b, term),
    decreases a.len(),
{
    broadcast use vstd::seq_lib::group_to_multiset_ensures;
    if a.len() == 0 {
        assert(a.to_multiset().len() == 0);
        assert(b.to_multiset().len() == 0);
        assert(b.len() == 0);
        assert(b =~= Seq::<T>::empty());
    } else {
        let x = a.last();
        let a1 = a.drop_last();
        assert(a1.push(x) =~= a);
        assert(a.to_multiset().count(x) > 0);
        assert(b.contains(x));
        let i = choose|i: int| 0 <= i < b.len() && b[i] == x;
        let b1 = b.remove(i);
        assert(a1.to_multiset() =~= b1.to_multiset()) by {
            assert(a.to_multiset() =~= a1.to_multiset().insert(x));
            assert(b1.to_multiset() =~= b.to_multiset().remove(x));
            assert(a1.to_multiset().insert(x).remove(x) =~= a1.to_multiset());
        }
        lemma_ext_sum_permutation(a1, b1, term);
        assert(b1.len() == b.len() - 1);
        assert(b1.insert(i, x) =~= b);
        lemma_ext_sum_insert(b1, i, x, term);
    }
}

} // verus!
