//! Sorting of latencies into ascending order, by merging.

use vstd::multiset::lemma_multiset_empty_len;
use vstd::multiset::Multiset;
use vstd::prelude::*;
use vstd::relations::sorted_by;
use vstd::relations::total_ordering;
use vstd::seq_lib::lemma_multiset_commutative;
use vstd::seq_lib::lemma_sorted_unique;
use vstd::seq_lib::to_multiset_build;
use vstd::seq_lib::to_multiset_len;

verus! {

/// Whether no value of `s` is followed by a smaller one.
pub open spec fn ascending(s: Seq<u64>) -> bool {
    forall|i: int, j: int| 0 <= i <= j < s.len() ==> s[i] <= s[j]
}

/// The order by which latencies are sorted.
pub open spec fn at_most() -> spec_fn(u64, u64) -> bool {
    |a: u64, b: u64| a <= b
}

/// The values of `s` in ascending order.
pub open spec fn in_ascending_order(s: Seq<u64>) -> Seq<u64> {
    s.sort_by(at_most())
}

/// There is one way only to put given values in ascending order: a sequence
/// that is ascending and holds each value as often as `s` does is
/// `in_ascending_order(s)`.
pub proof fn lemma_ascending_order_is_unique(s: Seq<u64>, sorted: Seq<u64>)
    requires
        ascending(sorted),
        sorted.to_multiset() == s.to_multiset(),
    ensures
        sorted == in_ascending_order(s),
{
    let leq = at_most();
    assert(total_ordering(leq));
    s.lemma_sort_by_ensures(leq);
    assert(sorted_by(sorted, leq));
    lemma_sorted_unique(sorted, s.sort_by(leq), leq);
}

/// What `in_ascending_order` gives is ascending and holds each value as
/// often as `s` does.
pub proof fn lemma_ascending_order_is_sorted(s: Seq<u64>)
    ensures
        ascending(in_ascending_order(s)),
        in_ascending_order(s).to_multiset() == s.to_multiset(),
        in_ascending_order(s).len() == s.len(),
{
    let leq = at_most();
    assert(total_ordering(leq));
    s.lemma_sort_by_ensures(leq);
    let sorted = s.sort_by(leq);
    assert(sorted_by(sorted, leq));
    assert forall|i: int, j: int| 0 <= i <= j < sorted.len() implies sorted[i] <= sorted[j] by {
        if i < j {
            assert(leq(sorted[i], sorted[j]));
        }
    }
    sorted.to_multiset_ensures();
    s.to_multiset_ensures();
}

/// Merges two ascending lists into one.
fn merge(left: &Vec<u64>, right: &Vec<u64>) -> (merged: Vec<u64>)
    requires
        ascending(left@),
        ascending(right@),
    ensures
        ascending(merged@),
        merged@.to_multiset() == left@.to_multiset().add(right@.to_multiset()),
        merged@.len() == left@.len() + right@.len(),
{
    let mut merged: Vec<u64> = Vec::new();
    let mut i: usize = 0;
    let mut j: usize = 0;
    proof {
        broadcast use vstd::multiset::group_multiset_axioms;

        let nothing = Seq::<u64>::empty();
        assert(left@.take(0) =~= nothing);
        assert(right@.take(0) =~= nothing);
        assert(merged@ =~= nothing);
        to_multiset_len(nothing);
        lemma_multiset_empty_len(nothing.to_multiset());
        assert(nothing.to_multiset() =~= Multiset::<u64>::empty());
        assert(nothing.to_multiset() =~= nothing.to_multiset().add(nothing.to_multiset()));
    }
    while i < left.len() || j < right.len()
        invariant
            i <= left.len(),
            j <= right.len(),
            ascending(left@),
            ascending(right@),
            ascending(merged@),
            merged@.len() == i + j,
            merged@.to_multiset() == left@.take(i as int).to_multiset().add(
                right@.take(j as int).to_multiset(),
            ),
            forall|k: int| 0 <= k < merged@.len() && i < left.len() ==> merged@[k] <= left@[i as int],
            forall|k: int|
                0 <= k < merged@.len() && j < right.len() ==> merged@[k] <= right@[j as int],
        decreases left.len() - i + right.len() - j,
    {
        let ghost before = merged@;
        if j >= right.len() || (i < left.len() && left[i] <= right[j]) {
            let value: u64 = left[i];
            merged.push(value);
            proof {
                to_multiset_build(before, value);
                to_multiset_build(left@.take(i as int), value);
                assert(left@.take(i as int + 1) =~= left@.take(i as int).push(value));
                assert(merged@.to_multiset() =~= left@.take(i as int + 1).to_multiset().add(
                    right@.take(j as int).to_multiset(),
                ));
            }
            i = i + 1;
        } else {
            let value: u64 = right[j];
            merged.push(value);
            proof {
                to_multiset_build(before, value);
                to_multiset_build(right@.take(j as int), value);
                assert(right@.take(j as int + 1) =~= right@.take(j as int).push(value));
                assert(merged@.to_multiset() =~= left@.take(i as int).to_multiset().add(
                    right@.take(j as int + 1).to_multiset(),
                ));
            }
            j = j + 1;
        }
    }
    assert(left@.take(i as int) =~= left@);
    assert(right@.take(j as int) =~= right@);
    merged
}

/// Sorts the values at positions `lo` up to `hi` of `values`.
fn sort_range(values: &Vec<u64>, lo: usize, hi: usize) -> (sorted: Vec<u64>)
    requires
        lo <= hi <= values.len(),
    ensures
        ascending(sorted@),
        sorted@.to_multiset() == values@.subrange(lo as int, hi as int).to_multiset(),
        sorted@.len() == hi - lo,
    decreases hi - lo,
{
    let ghost range = values@.subrange(lo as int, hi as int);
    if hi - lo == 0 {
        let sorted: Vec<u64> = Vec::new();
        assert(sorted@ =~= range);
        sorted
    } else if hi - lo == 1 {
        let mut sorted: Vec<u64> = Vec::new();
        sorted.push(values[lo]);
        assert(sorted@ =~= range);
        sorted
    } else {
        let mid: usize = lo + (hi - lo) / 2;
        let left = sort_range(values, lo, mid);
        let right = sort_range(values, mid, hi);
        proof {
            let first = values@.subrange(lo as int, mid as int);
            let second = values@.subrange(mid as int, hi as int);
            assert(range =~= first + second);
            lemma_multiset_commutative(first, second);
        }
        merge(&left, &right)
    }
}

/// Returns the values of `values` in ascending order.
pub fn sort_ascending(values: &Vec<u64>) -> (sorted: Vec<u64>)
    ensures
        sorted@ == in_ascending_order(values@),
        ascending(sorted@),
        sorted@.to_multiset() == values@.to_multiset(),
        sorted@.len() == values@.len(),
{
    let sorted = sort_range(values, 0, values.len());
    proof {
        assert(values@.subrange(0, values@.len() as int) =~= values@);
        lemma_ascending_order_is_unique(values@, sorted@);
    }
    sorted
}

} // verus!
