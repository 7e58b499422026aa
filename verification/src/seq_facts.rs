//! Small facts about sequences and multisets that the scanner's proofs share.

use vstd::prelude::*;

verus! {

/// Filtering a sequence extended by one element keeps the old result and
/// appends the element exactly when it satisfies the predicate.
pub proof fn lemma_filter_push<A>(s: Seq<A>, pred: spec_fn(A) -> bool, x: A)
    ensures
        s.push(x).filter(pred) == if pred(x) {
            s.filter(pred).push(x)
        } else {
            s.filter(pred)
        },
{
    reveal_with_fuel(Seq::filter, 2);
    assert(s.push(x).drop_last() =~= s);
    assert(s.push(x).last() == x);
}

/// A sequence none of whose elements satisfies the predicate filters to the
/// empty sequence.
pub proof fn lemma_filter_all_out<A>(s: Seq<A>, pred: spec_fn(A) -> bool)
    requires
        forall|i: int| 0 <= i < s.len() ==> !pred(#[trigger] s[i]),
    ensures
        s.filter(pred) == Seq::<A>::empty(),
    decreases s.len(),
{
    reveal_with_fuel(Seq::filter, 2);
    if s.len() > 0 {
        lemma_filter_all_out(s.drop_last(), pred);
    }
}

/// Filtering commutes with forgetting the order of a sequence.
pub proof fn lemma_filter_to_multiset<A>(s: Seq<A>, pred: spec_fn(A) -> bool)
    ensures
        s.filter(pred).to_multiset() == s.to_multiset().filter(pred),
    decreases s.len(),
{
    broadcast use vstd::seq_lib::group_to_multiset_ensures;
    broadcast use vstd::multiset::group_multiset_axioms;

    reveal_with_fuel(Seq::filter, 2);
    if s.len() == 0 {
        assert(s.to_multiset().len() == 0);
        vstd::multiset::lemma_multiset_empty_len(s.to_multiset());
        assert(s.filter(pred).to_multiset().len() == 0);
        vstd::multiset::lemma_multiset_empty_len(s.filter(pred).to_multiset());
        assert(s.filter(pred).to_multiset() =~= s.to_multiset().filter(pred));
    } else {
        let d = s.drop_last();
        let x = s.last();
        lemma_filter_to_multiset(d, pred);
        assert(s =~= d.push(x));
        assert(s.to_multiset() =~= d.push(x).to_multiset());
        assert(d.push(x).to_multiset() =~= d.to_multiset().insert(x));
        if pred(x) {
            assert(s.filter(pred) == d.filter(pred).push(x));
            assert(s.filter(pred).to_multiset() =~= d.filter(pred).to_multiset().insert(x));
        } else {
            assert(s.filter(pred) == d.filter(pred));
        }
        assert(s.filter(pred).to_multiset() =~= s.to_multiset().filter(pred));
    }
}

/// Two sequences holding the same elements (as a multiset) still hold the
/// same elements after both are filtered by the same predicate.
pub proof fn lemma_filter_permutation<A>(s1: Seq<A>, s2: Seq<A>, pred: spec_fn(A) -> bool)
    requires
        s1.to_multiset() == s2.to_multiset(),
    ensures
        s1.filter(pred).to_multiset() == s2.filter(pred).to_multiset(),
{
    lemma_filter_to_multiset(s1, pred);
    lemma_filter_to_multiset(s2, pred);
}

} // verus!
