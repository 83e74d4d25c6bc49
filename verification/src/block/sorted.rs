//! Vectors of weights kept in ascending order.
//!
//! The long-term window of the weight cache is such a vector: a weight enters
//! at the place a binary search finds, and leaves from the place of its first
//! occurrence. Because equal weights cannot be told apart, a sorted vector is
//! fixed by the multiset of its items.

use vstd::prelude::*;
use vstd::relations::{sorted_by, total_ordering};
use vstd::seq_lib::{
    lemma_multiset_commutative, lemma_sorted_unique, to_multiset_build, to_multiset_insert,
    to_multiset_remove,
};

verus! {

/// The order of weights, as a relation.
pub open spec fn leq() -> spec_fn(usize, usize) -> bool {
    |a: usize, b: usize| a <= b
}

/// `s` is in ascending order.
pub open spec fn is_sorted(s: Seq<usize>) -> bool {
    forall|i: int, j: int| 0 <= i <= j < s.len() ==> s[i] <= s[j]
}

/// The items of `s` in ascending order.
pub open spec fn sort(s: Seq<usize>) -> Seq<usize> {
    s.sort_by(leq())
}

/// `sort` yields a sorted sequence with the items of its argument.
pub proof fn lemma_sort(s: Seq<usize>)
    ensures
        is_sorted(sort(s)),
        sort(s).to_multiset() == s.to_multiset(),
        sort(s).len() == s.len(),
{
    assert(total_ordering(leq()));
    s.lemma_sort_by_ensures(leq());
    s.to_multiset_ensures();
    sort(s).to_multiset_ensures();
    let r = sort(s);
    assert forall|i: int, j: int| 0 <= i <= j < r.len() implies r[i] <= r[j] by {
        if i < j {
            assert(leq()(r[i], r[j]));
        }
    }
}

/// Two sorted sequences with the same items are the same sequence.
pub proof fn lemma_sorted_eq(a: Seq<usize>, b: Seq<usize>)
    requires
        is_sorted(a),
        is_sorted(b),
        a.to_multiset() == b.to_multiset(),
    ensures
        a == b,
{
    assert(total_ordering(leq()));
    assert(sorted_by(a, leq()));
    assert(sorted_by(b, leq()));
    lemma_sorted_unique(a, b, leq());
}

/// Sorting sees only the items, not their order.
pub proof fn lemma_sort_by_items(a: Seq<usize>, b: Seq<usize>)
    requires
        a.to_multiset() == b.to_multiset(),
    ensures
        sort(a) == sort(b),
{
    lemma_sort(a);
    lemma_sort(b);
    lemma_sorted_eq(sort(a), sort(b));
}

/// Taking the first `x` out of a sorted sequence leaves a sorted sequence
/// with one `x` less.
pub proof fn lemma_remove_value(s: Seq<usize>, x: usize)
    requires
        is_sorted(s),
        s.contains(x),
    ensures
        is_sorted(s.remove_value(x)),
        s.remove_value(x).to_multiset() == s.to_multiset().remove(x),
        s.remove_value(x).len() == s.len() - 1,
{
    s.index_of_first_ensures(x);
    let i = s.index_of_first(x).unwrap();
    to_multiset_remove(s, i);
    let r = s.remove(i);
    assert forall|a: int, b: int| 0 <= a <= b < r.len() implies r[a] <= r[b] by {
        let a0 = if a < i { a } else { a + 1 };
        let b0 = if b < i { b } else { b + 1 };
        assert(r[a] == s[a0] && r[b] == s[b0]);
    }
}

/// The first position in the sorted vector `v` whose item is not below `x`:
/// where `x` stands if it occurs, and where it can be inserted in any case.
pub fn search(v: &Vec<usize>, x: usize) -> (idx: usize)
    requires
        is_sorted(v@),
    ensures
        idx <= v.len(),
        forall|i: int| 0 <= i < idx ==> v@[i] < x,
        forall|i: int| idx <= i < v.len() ==> x <= v@[i],
{
    let mut lo: usize = 0;
    let mut hi: usize = v.len();
    while lo < hi
        invariant
            lo <= hi <= v.len(),
            is_sorted(v@),
            forall|i: int| 0 <= i < lo ==> v@[i] < x,
            forall|i: int| hi <= i < v.len() ==> x <= v@[i],
        decreases hi - lo,
    {
        let mid: usize = lo + (hi - lo) / 2;
        if v[mid] < x {
            lo = mid + 1;
        } else {
            hi = mid;
        }
    }
    lo
}

/// Puts `x` into the sorted vector `v`, which stays sorted.
pub fn insert(v: &mut Vec<usize>, x: usize)
    requires
        is_sorted(old(v)@),
    ensures
        is_sorted(final(v)@),
        final(v)@.to_multiset() == old(v)@.to_multiset().insert(x),
        final(v)@ == sort(old(v)@.push(x)),
{
    let idx = search(v, x);
    v.insert(idx, x);
    proof {
        let before = old(v)@;
        let after = before.insert(idx as int, x);
        assert(v@ == after);
        assert(is_sorted(after)) by {
            assert forall|i: int, j: int| 0 <= i <= j < after.len() implies after[i]
                <= after[j] by {
                if j < idx {
                    assert(after[i] == before[i] && after[j] == before[j]);
                } else if j == idx {
                    if i < idx {
                        assert(after[i] == before[i]);
                    }
                } else {
                    assert(after[j] == before[j - 1]);
                    if i < idx {
                        assert(after[i] == before[i]);
                    } else if i > idx {
                        assert(after[i] == before[i - 1]);
                    }
                }
            }
        }
        to_multiset_insert(before, idx as int, x);
        to_multiset_build(before, x);
        lemma_sort(before.push(x));
        lemma_sorted_eq(after, sort(before.push(x)));
    }
}

/// Takes one `x` out of the sorted vector `v`, which stays sorted.
pub fn remove(v: &mut Vec<usize>, x: usize)
    requires
        is_sorted(old(v)@),
        old(v)@.contains(x),
    ensures
        is_sorted(final(v)@),
        final(v)@.to_multiset() == old(v)@.to_multiset().remove(x),
        final(v)@ == old(v)@.remove_value(x),
{
    let idx = search(v, x);
    proof {
        let before = v@;
        let k = choose|k: int| 0 <= k < before.len() && before[k] == x;
        assert(idx <= k);
        assert(before[idx as int] <= before[k]);
        before.index_of_first_ensures(x);
        assert(before.index_of_first(x) == Some(idx as int));
        to_multiset_remove(before, idx as int);
    }
    let _ = v.remove(idx);
}

/// Merges two sorted vectors into one sorted vector.
fn merge(a: &Vec<usize>, b: &Vec<usize>) -> (r: Vec<usize>)
    requires
        is_sorted(a@),
        is_sorted(b@),
    ensures
        is_sorted(r@),
        r@.to_multiset() == a@.to_multiset().add(b@.to_multiset()),
{
    let mut r: Vec<usize> = Vec::new();
    let mut i: usize = 0;
    let mut j: usize = 0;
    proof {
        assert(a@.take(0) == Seq::<usize>::empty());
        assert(b@.take(0) == Seq::<usize>::empty());
        lemma_multiset_commutative(a@.take(0), b@.take(0));
    }
    while i < a.len() || j < b.len()
        invariant
            i <= a.len(),
            j <= b.len(),
            is_sorted(a@),
            is_sorted(b@),
            is_sorted(r@),
            r@.to_multiset() == a@.take(i as int).to_multiset().add(
                b@.take(j as int).to_multiset(),
            ),
            forall|k: int| 0 <= k < r.len() && i < a.len() ==> r@[k] <= a@[i as int],
            forall|k: int| 0 <= k < r.len() && j < b.len() ==> r@[k] <= b@[j as int],
        decreases a.len() - i + b.len() - j,
    {
        let ghost before = r@;
        let from_a: bool = if i == a.len() {
            false
        } else if j == b.len() {
            true
        } else {
            a[i] <= b[j]
        };
        if from_a {
            let x: usize = a[i];
            r.push(x);
            proof {
                assert(a@.take(i + 1) == a@.take(i as int).push(x));
                to_multiset_build(a@.take(i as int), x);
                to_multiset_build(before, x);
                let taken_a = a@.take(i as int).to_multiset();
                let taken_b = b@.take(j as int).to_multiset();
                assert(taken_a.insert(x).add(taken_b) =~= taken_a.add(taken_b).insert(x));
            }
            i = i + 1;
        } else {
            let x: usize = b[j];
            r.push(x);
            proof {
                assert(b@.take(j + 1) == b@.take(j as int).push(x));
                to_multiset_build(b@.take(j as int), x);
                to_multiset_build(before, x);
                let taken_a = a@.take(i as int).to_multiset();
                let taken_b = b@.take(j as int).to_multiset();
                assert(taken_a.add(taken_b.insert(x)) =~= taken_a.add(taken_b).insert(x));
            }
            j = j + 1;
        }
    }
    proof {
        assert(a@.take(i as int) == a@);
        assert(b@.take(j as int) == b@);
    }
    r
}

/// The items of `v[lo..hi]` in ascending order, by merge sort.
fn sort_range(v: &Vec<usize>, lo: usize, hi: usize) -> (r: Vec<usize>)
    requires
        lo <= hi <= v.len(),
    ensures
        is_sorted(r@),
        r@.to_multiset() == v@.subrange(lo as int, hi as int).to_multiset(),
    decreases hi - lo,
{
    if hi - lo <= 1 {
        let mut r: Vec<usize> = Vec::new();
        if lo < hi {
            r.push(v[lo]);
        }
        assert(r@ == v@.subrange(lo as int, hi as int));
        r
    } else {
        let mid: usize = lo + (hi - lo) / 2;
        let left = sort_range(v, lo, mid);
        let right = sort_range(v, mid, hi);
        proof {
            let l = v@.subrange(lo as int, mid as int);
            let h = v@.subrange(mid as int, hi as int);
            assert(v@.subrange(lo as int, hi as int) == l + h);
            lemma_multiset_commutative(l, h);
        }
        merge(&left, &right)
    }
}

/// The items of `v` in ascending order.
pub fn sorted_copy(v: &Vec<usize>) -> (r: Vec<usize>)
    ensures
        r@ == sort(v@),
        is_sorted(r@),
        r@.to_multiset() == v@.to_multiset(),
{
    let r = sort_range(v, 0, v.len());
    proof {
        assert(v@.subrange(0, v.len() as int) == v@);
        lemma_sort(v@);
        lemma_sorted_eq(r@, sort(v@));
    }
    r
}

} // verus!
