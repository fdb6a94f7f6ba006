//! Stable insertion by key: the order both access logs are sorted in.
//!
//! A log is sorted by inserting each entry, in turn, after every entry already
//! placed whose key is not greater than its own. Entries with equal keys keep
//! the order in which they arrived.

use vstd::prelude::*;
use vstd::seq_lib::{to_multiset_build, to_multiset_insert};

verus! {

/// Whether `le` is transitive and total: an order in which any two keys
/// compare.
pub open spec fn total_preorder<T>(le: spec_fn(T, T) -> bool) -> bool {
    &&& forall|a: T, b: T, c: T| #[trigger] le(a, b) && #[trigger] le(b, c) ==> le(a, c)
    &&& forall|a: T, b: T| #[trigger] le(a, b) || le(b, a)
}

/// `x` inserted into `s` after every entry not greater than it, scanning from
/// the back.
pub open spec fn insert_by<T>(s: Seq<T>, x: T, le: spec_fn(T, T) -> bool) -> Seq<T>
    decreases s.len(),
{
    if s.len() == 0 {
        seq![x]
    } else if le(s.last(), x) {
        s.push(x)
    } else {
        insert_by(s.drop_last(), x, le).push(s.last())
    }
}

/// `s` sorted by `le` by stable insertion.
pub open spec fn sort_by<T>(s: Seq<T>, le: spec_fn(T, T) -> bool) -> Seq<T>
    decreases s.len(),
{
    if s.len() == 0 {
        Seq::empty()
    } else {
        insert_by(sort_by(s.drop_last(), le), s.last(), le)
    }
}

/// Whether `s` is ordered by `le`.
pub open spec fn ordered_by<T>(s: Seq<T>, le: spec_fn(T, T) -> bool) -> bool {
    forall|i: int, j: int| 0 <= i < j < s.len() ==> le(#[trigger] s[i], #[trigger] s[j])
}

/// Where the backward scan for `x` stops in `s`: every entry at or after `k`
/// is greater than `x`, and the entry before `k`, if any, is not.
pub open spec fn insertion_point<T>(s: Seq<T>, x: T, k: int, le: spec_fn(T, T) -> bool) -> bool {
    &&& 0 <= k <= s.len()
    &&& forall|j: int| k <= j < s.len() ==> !le(#[trigger] s[j], x)
    &&& k > 0 ==> le(s[k - 1], x)
}

/// Inserting by key places `x` where the backward scan stops.
pub proof fn lemma_insert_at<T>(s: Seq<T>, x: T, k: int, le: spec_fn(T, T) -> bool)
    requires
        insertion_point(s, x, k, le),
    ensures
        insert_by(s, x, le) == s.insert(k, x),
    decreases s.len(),
{
    if s.len() == 0 {
        assert(s.insert(k, x) =~= seq![x]);
    } else if le(s.last(), x) {
        if k < s.len() {
            assert(!le(s[s.len() - 1], x));
        }
        assert(s.insert(k, x) =~= s.push(x));
    } else {
        assert(k < s.len());
        let t = s.drop_last();
        assert forall|j: int| k <= j < t.len() implies !le(#[trigger] t[j], x) by {
            assert(t[j] == s[j]);
        }
        if k > 0 {
            assert(t[k - 1] == s[k - 1]);
        }
        lemma_insert_at(t, x, k, le);
        assert(s.insert(k, x) =~= t.insert(k, x).push(s.last()));
    }
}

/// The point where the backward scan for `x` stops in `s`.
pub proof fn lemma_insertion_point_exists<T>(s: Seq<T>, x: T, le: spec_fn(T, T) -> bool) -> (k: int)
    ensures
        insertion_point(s, x, k, le),
    decreases s.len(),
{
    if s.len() == 0 {
        0
    } else if le(s.last(), x) {
        s.len() as int
    } else {
        let t = s.drop_last();
        let k = lemma_insertion_point_exists(t, x, le);
        assert forall|j: int| k <= j < s.len() implies !le(#[trigger] s[j], x) by {
            if j < t.len() {
                assert(t[j] == s[j]);
            }
        }
        if k > 0 {
            assert(t[k - 1] == s[k - 1]);
        }
        k
    }
}

/// Inserting `x` at its insertion point keeps an ordered sequence ordered.
proof fn lemma_insert_keeps_order<T>(s: Seq<T>, x: T, k: int, le: spec_fn(T, T) -> bool)
    requires
        total_preorder(le),
        ordered_by(s, le),
        insertion_point(s, x, k, le),
    ensures
        ordered_by(s.insert(k, x), le),
{
    let t = s.insert(k, x);
    assert forall|a: int, b: int| 0 <= a < b < t.len() implies le(#[trigger] t[a], #[trigger] t[b]) by {
        if a < k && b == k {
            assert(le(s[k - 1], x));
            if a < k - 1 {
                assert(le(s[a], s[k - 1]));
            }
        } else if a < k && b > k {
            assert(t[b] == s[b - 1]);
            assert(le(s[a], s[b - 1]));
        } else if a == k {
            assert(t[b] == s[b - 1]);
            assert(!le(s[b - 1], x));
            assert(le(x, s[b - 1]) || le(s[b - 1], x));
        } else if a > k {
            assert(le(s[a - 1], s[b - 1]));
        } else {
            assert(le(s[a], s[b]));
        }
    }
}

/// Sorting by a total preorder orders the sequence and keeps exactly its
/// entries, each as often as it occurred.
pub proof fn lemma_sort_by_is_ordered_permutation<T>(s: Seq<T>, le: spec_fn(T, T) -> bool)
    requires
        total_preorder(le),
    ensures
        ordered_by(sort_by(s, le), le),
        sort_by(s, le).to_multiset() == s.to_multiset(),
    decreases s.len(),
{
    if s.len() == 0 {
        assert(s =~= Seq::<T>::empty());
    } else {
        let t = sort_by(s.drop_last(), le);
        lemma_sort_by_is_ordered_permutation(s.drop_last(), le);
        let k = lemma_insertion_point_exists(t, s.last(), le);
        lemma_insert_at(t, s.last(), k, le);
        lemma_insert_keeps_order(t, s.last(), k, le);
        to_multiset_insert(t, k, s.last());
        to_multiset_build(s.drop_last(), s.last());
        assert(s.drop_last().push(s.last()) =~= s);
    }
}

} // verus!
