//! Sequences that hold the same items in another order, and what does not
//! depend on the order.

use vstd::prelude::*;
use vstd::seq_lib::{lemma_multiset_commutative, to_multiset_len, to_multiset_remove};

verus! {

/// The function that keeps what `keep` accepts and hands it to `f`.
pub open spec fn guarded<A, B>(keep: spec_fn(A) -> bool, f: spec_fn(A) -> Option<B>) -> spec_fn(
    A,
) -> Option<B> {
    |x: A|
        if keep(x) {
            f(x)
        } else {
            None
        }
}

/// The function that hands every item to `f` and keeps the result.
pub open spec fn always<A, B>(f: spec_fn(A) -> B) -> spec_fn(A) -> Option<B> {
    |x: A| Some(f(x))
}

/// Mapping the items that are kept, part by part, is mapping them in the
/// whole.
pub proof fn lemma_filter_map_concat<A, B>(x: Seq<A>, y: Seq<A>, f: spec_fn(A) -> Option<B>)
    ensures
        (x + y).filter_map(f) == x.filter_map(f) + y.filter_map(f),
    decreases y.len(),
{
    if y.len() == 0 {
        assert(x + y =~= x);
        assert(x.filter_map(f) + y.filter_map(f) =~= x.filter_map(f));
    } else {
        assert((x + y).drop_last() =~= x + y.drop_last());
        assert((x + y).last() == y.last());
        lemma_filter_map_concat(x, y.drop_last(), f);
        match f(y.last()) {
            Some(b) => {
                assert((x.filter_map(f) + y.drop_last().filter_map(f)) + seq![b] =~= x.filter_map(
                    f,
                ) + (y.drop_last().filter_map(f) + seq![b]));
            },
            None => {},
        }
    }
}

/// What the kept items of a sequence map to does not depend, but for its
/// order, on the order of the sequence.
pub proof fn lemma_filter_map_permutation<A, B>(s1: Seq<A>, s2: Seq<A>, f: spec_fn(A) -> Option<B>)
    requires
        s1.to_multiset() == s2.to_multiset(),
    ensures
        s1.filter_map(f).to_multiset() == s2.filter_map(f).to_multiset(),
    decreases s1.len(),
{
    to_multiset_len(s1);
    to_multiset_len(s2);
    if s1.len() == 0 {
        assert(s1 =~= s2);
    } else {
        let x = s1.last();
        let last = s1.len() - 1;
        assert(s2.contains(x)) by {
            vstd::seq_lib::to_multiset_contains(s1, x);
            vstd::seq_lib::to_multiset_contains(s2, x);
            assert(s1[last] == x);
        }
        let j = choose|j: int| 0 <= j < s2.len() && s2[j] == x;
        let r1 = s1.drop_last();
        let r2 = s2.remove(j);
        assert(r1 =~= s1.remove(last));
        to_multiset_remove(s1, last);
        to_multiset_remove(s2, j);
        lemma_filter_map_permutation(r1, r2, f);
        let one = seq![x];
        let left = s2.take(j);
        let right = s2.skip(j + 1);
        assert(s1 =~= r1 + one);
        assert(s2 =~= (left + one) + right);
        assert(r2 =~= left + right);
        lemma_filter_map_concat(r1, one, f);
        lemma_filter_map_concat(left + one, right, f);
        lemma_filter_map_concat(left, one, f);
        lemma_filter_map_concat(left, right, f);
        let m = one.filter_map(f);
        let l = left.filter_map(f);
        let r = right.filter_map(f);
        lemma_multiset_commutative(r1.filter_map(f), m);
        lemma_multiset_commutative(l + m, r);
        lemma_multiset_commutative(l, m);
        lemma_multiset_commutative(l, r);
        assert(s2.filter_map(f).to_multiset() =~= r2.filter_map(f).to_multiset().add(
            m.to_multiset(),
        ));
    }
}

/// Mapping the kept items of what a filter keeps is mapping what both keep.
pub proof fn lemma_filter_then_filter_map<A, B>(
    s: Seq<A>,
    keep: spec_fn(A) -> bool,
    f: spec_fn(A) -> Option<B>,
)
    ensures
        s.filter(keep).filter_map(f) == s.filter_map(guarded(keep, f)),
    decreases s.len(),
{
    reveal(Seq::filter);
    if s.len() > 0 {
        lemma_filter_then_filter_map(s.drop_last(), keep, f);
        if keep(s.last()) {
            let kept = s.drop_last().filter(keep);
            assert(kept.push(s.last()).drop_last() =~= kept);
        }
    }
}

/// Mapping every item is mapping the kept items where all are kept.
pub proof fn lemma_map_values_as_filter_map<A, B>(s: Seq<A>, f: spec_fn(A) -> B)
    ensures
        s.map_values(f) == s.filter_map(always(f)),
    decreases s.len(),
{
    if s.len() == 0 {
        assert(s.map_values(f) =~= s.filter_map(always(f)));
    } else {
        lemma_map_values_as_filter_map(s.drop_last(), f);
        assert(s.map_values(f) =~= s.drop_last().map_values(f) + seq![f(s.last())]);
    }
}

/// What the items of a sequence map to does not depend, but for its order,
/// on the order of the sequence.
pub proof fn lemma_map_values_permutation<A, B>(s1: Seq<A>, s2: Seq<A>, f: spec_fn(A) -> B)
    requires
        s1.to_multiset() == s2.to_multiset(),
    ensures
        s1.map_values(f).to_multiset() == s2.map_values(f).to_multiset(),
{
    lemma_map_values_as_filter_map(s1, f);
    lemma_map_values_as_filter_map(s2, f);
    lemma_filter_map_permutation(s1, s2, always(f));
}

} // verus!
