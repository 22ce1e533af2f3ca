//! Small facts about `Seq::filter` that the search functions and the
//! stated laws lean on.

use vstd::prelude::*;

verus! {

/// Filtering one more element keeps the filtered prefix and appends the
/// element exactly when it satisfies the predicate.
pub proof fn lemma_filter_push<A>(s: Seq<A>, x: A, pred: spec_fn(A) -> bool)
    ensures
        pred(x) ==> s.push(x).filter(pred) == s.filter(pred).push(x),
        !pred(x) ==> s.push(x).filter(pred) == s.filter(pred),
{
    reveal(Seq::filter);
    assert(s.push(x).drop_last() =~= s);
    assert(s.push(x).last() == x);
}

/// A filter whose predicate holds everywhere keeps the sequence as it is.
pub proof fn lemma_filter_all<A>(s: Seq<A>, pred: spec_fn(A) -> bool)
    requires
        forall|i: int| 0 <= i < s.len() ==> pred(#[trigger] s[i]),
    ensures
        s.filter(pred) == s,
    decreases s.len(),
{
    reveal(Seq::filter);
    if s.len() > 0 {
        lemma_filter_all(s.drop_last(), pred);
        assert(s.drop_last().push(s.last()) =~= s);
    }
}

/// A filter whose predicate holds nowhere keeps nothing.
pub proof fn lemma_filter_none<A>(s: Seq<A>, pred: spec_fn(A) -> bool)
    requires
        forall|i: int| 0 <= i < s.len() ==> !pred(#[trigger] s[i]),
    ensures
        s.filter(pred) == Seq::<A>::empty(),
    decreases s.len(),
{
    reveal(Seq::filter);
    if s.len() > 0 {
        lemma_filter_none(s.drop_last(), pred);
    }
}

/// The positions, in increasing order, of the elements that a filter
/// keeps.
pub open spec fn kept_indices<A>(s: Seq<A>, pred: spec_fn(A) -> bool) -> Seq<int>
    decreases s.len(),
{
    if s.len() == 0 {
        Seq::empty()
    } else {
        let prefix = kept_indices(s.drop_last(), pred);
        if pred(s.last()) {
            prefix.push(s.len() - 1)
        } else {
            prefix
        }
    }
}

/// `kept_indices` lists exactly where the kept elements stand: one
/// position per element of the filtered sequence, strictly increasing, and
/// no position that the predicate accepts is left out.
pub proof fn lemma_kept_indices<A>(s: Seq<A>, pred: spec_fn(A) -> bool)
    ensures
        kept_indices(s, pred).len() == s.filter(pred).len(),
        forall|k: int|
            0 <= k < kept_indices(s, pred).len() ==> 0 <= #[trigger] kept_indices(s, pred)[k]
                < s.len(),
        forall|k: int|
            0 <= k < kept_indices(s, pred).len() ==> s[#[trigger] kept_indices(s, pred)[k]]
                == s.filter(pred)[k],
        forall|k1: int, k2: int|
            0 <= k1 < k2 < kept_indices(s, pred).len() ==> #[trigger] kept_indices(s, pred)[k1]
                < #[trigger] kept_indices(s, pred)[k2],
        forall|i: int|
            0 <= i < s.len() && pred(#[trigger] s[i]) ==> kept_indices(s, pred).contains(i),
    decreases s.len(),
{
    reveal(Seq::filter);
    if s.len() > 0 {
        let prefix = kept_indices(s.drop_last(), pred);
        lemma_kept_indices(s.drop_last(), pred);
        assert forall|i: int|
            0 <= i < s.len() && pred(#[trigger] s[i]) implies kept_indices(s, pred).contains(
            i,
        ) by {
            if i < s.len() - 1 {
                assert(s.drop_last()[i] == s[i]);
                assert(prefix.contains(i));
                let k = choose|k: int| 0 <= k < prefix.len() && prefix[k] == i;
                assert(kept_indices(s, pred)[k] == i);
            } else {
                assert(pred(s.last()));
                assert(kept_indices(s, pred)[kept_indices(s, pred).len() - 1] == i);
            }
        }
        assert forall|k: int| 0 <= k < kept_indices(s, pred).len() implies s[#[trigger] kept_indices(
            s,
            pred,
        )[k]] == s.filter(pred)[k] by {
            if k < prefix.len() {
                assert(s.drop_last()[prefix[k]] == s[prefix[k]]);
                if pred(s.last()) {
                    assert(s.filter(pred)[k] == s.drop_last().filter(pred).push(s.last())[k]);
                }
            }
        }
    }
}

} // verus!
