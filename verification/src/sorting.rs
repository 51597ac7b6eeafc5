//! In-place sorting of a copied sample window, for percentile reads.

use vstd::prelude::*;

verus! {

use crate::model::sample_le;
use crate::model::sorted_window;
use vstd::relations::sorted_by;
use vstd::relations::total_ordering;
use vstd::seq_lib::lemma_sorted_unique;

/// `<=` on samples is a total ordering, so a sorted permutation is unique.
pub proof fn lemma_sample_le_total_ordering()
    ensures
        total_ordering(sample_le()),
{
    let leq = sample_le();
    assert forall|x: u64, y: u64| #[trigger] leq(x, y) || #[trigger] leq(y, x) by {}
}

/// Sorts the vector ascending. The result is exactly the abstract
/// [`sorted_window`] of the input: same values, ascending order.
pub fn sort_samples(v: &mut Vec<u64>)
    ensures
        final(v)@ == sorted_window(old(v)@),
        final(v)@.len() == old(v)@.len(),
        final(v)@.to_multiset() == old(v)@.to_multiset(),
        sorted_by(final(v)@, sample_le()),
{
    broadcast use vstd::seq_lib::to_multiset_update;
    broadcast use vstd::multiset::group_multiset_axioms;

    let ghost w0 = v@;
    let len = v.len();
    let mut i: usize = 1;
    while i < len
        invariant
            1 <= i <= len || len == 0,
            v@.len() == len,
            v@.to_multiset() == w0.to_multiset(),
            forall|k1: int, k2: int| 0 <= k1 < k2 < i ==> v@[k1] <= v@[k2],
        decreases len - i,
    {
        let mut j: usize = i;
        while j > 0 && v[j - 1] > v[j]
            invariant
                0 <= j <= i < len,
                v@.len() == len,
                v@.to_multiset() == w0.to_multiset(),
                forall|k1: int, k2: int|
                    0 <= k1 < k2 <= i && k1 != j && k2 != j ==> v@[k1] <= v@[k2],
                forall|k: int| j < k <= i ==> v@[j as int] <= #[trigger] v@[k],
            decreases j,
        {
            let ghost before = v@;
            let a = v[j - 1];
            let b = v[j];
            v.set(j - 1, b);
            v.set(j, a);
            proof {
                broadcast use vstd::seq_lib::group_to_multiset_ensures;

                let s1 = before.update(j - 1, b);
                assert(s1[j as int] == b);
                assert(v@ == s1.update(j as int, a));
                assert(before[j - 1] == a && 0 <= j - 1 < before.len());
                assert(before.to_multiset().count(a) > 0);
                assert(v@.to_multiset() =~= before.to_multiset());
            }
            j = j - 1;
        }
        assert(forall|k1: int, k2: int| 0 <= k1 < k2 <= i ==> v@[k1] <= v@[k2]);
        i = i + 1;
    }
    proof {
        assert(sorted_by(v@, sample_le()));
        lemma_sample_le_total_ordering();
        w0.lemma_sort_by_ensures(sample_le());
        lemma_sorted_unique(v@, sorted_window(w0), sample_le());
    }
}

} // verus!
