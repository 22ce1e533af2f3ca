//! The laws of the search: statements that hold for every query and every
//! document, proved once and for all.

use vstd::prelude::*;

use crate::casefold::lower_of;
use crate::lines::spec_lines;
use crate::search::ci_matches_query;
use crate::search::matches_query;
use crate::search::search_ci_spec;
use crate::search::search_result;
use crate::search::search_spec;
use crate::seq_facts::kept_indices;
use crate::seq_facts::lemma_filter_all;
use crate::seq_facts::lemma_filter_none;
use crate::seq_facts::lemma_kept_indices;
use crate::substring::is_substring_of;

verus! {

/// Case-sensitive search is sound and complete: every returned line is a
/// line of the document that contains the query, and every line of the
/// document that contains the query is returned.
pub proof fn lemma_search_exact(q: Seq<char>, t: Seq<char>)
    ensures
        forall|k: int|
            0 <= k < search_spec(q, t).len() ==> spec_lines(t).contains(
                #[trigger] search_spec(q, t)[k],
            ) && is_substring_of(q, search_spec(q, t)[k]),
        forall|i: int|
            0 <= i < spec_lines(t).len() && is_substring_of(q, #[trigger] spec_lines(t)[i])
                ==> search_spec(q, t).contains(spec_lines(t)[i]),
{
    broadcast use vstd::seq_lib::group_filter_ensures;

    lemma_kept_indices(spec_lines(t), matches_query(q));
    let idx = kept_indices(spec_lines(t), matches_query(q));
    assert forall|k: int| 0 <= k < search_spec(q, t).len() implies spec_lines(t).contains(
        #[trigger] search_spec(q, t)[k],
    ) && is_substring_of(q, search_spec(q, t)[k]) by {
        assert(spec_lines(t)[idx[k]] == search_spec(q, t)[k]);
    }
}

/// Case-insensitive search is sound and complete on the folded forms:
/// it returns exactly the lines of the document whose lowercase form
/// contains the lowercase form of the query.
pub proof fn lemma_search_case_insensitive_exact(q: Seq<char>, t: Seq<char>)
    ensures
        forall|k: int|
            0 <= k < search_ci_spec(q, t).len() ==> spec_lines(t).contains(
                #[trigger] search_ci_spec(q, t)[k],
            ) && is_substring_of(lower_of(q), lower_of(search_ci_spec(q, t)[k])),
        forall|i: int|
            0 <= i < spec_lines(t).len() && is_substring_of(
                lower_of(q),
                lower_of(#[trigger] spec_lines(t)[i]),
            ) ==> search_ci_spec(q, t).contains(spec_lines(t)[i]),
{
    broadcast use vstd::seq_lib::group_filter_ensures;

    lemma_kept_indices(spec_lines(t), ci_matches_query(q));
    let idx = kept_indices(spec_lines(t), ci_matches_query(q));
    assert forall|k: int| 0 <= k < search_ci_spec(q, t).len() implies spec_lines(t).contains(
        #[trigger] search_ci_spec(q, t)[k],
    ) && is_substring_of(lower_of(q), lower_of(search_ci_spec(q, t)[k])) by {
        assert(spec_lines(t)[idx[k]] == search_ci_spec(q, t)[k]);
    }
}

/// The positions of the matching lines, for the case-sensitive search.
pub open spec fn match_positions(q: Seq<char>, t: Seq<char>) -> Seq<int> {
    kept_indices(spec_lines(t), matches_query(q))
}

/// The positions of the matching lines, for the case-insensitive search.
pub open spec fn ci_match_positions(q: Seq<char>, t: Seq<char>) -> Seq<int> {
    kept_indices(spec_lines(t), ci_matches_query(q))
}

/// The result keeps the document's order: its k-th line stands at the
/// k-th matching position, the positions strictly increase, and every
/// matching position is listed, so nothing is reordered and no repeated
/// line is dropped.
pub proof fn lemma_search_keeps_order(q: Seq<char>, t: Seq<char>)
    ensures
        match_positions(q, t).len() == search_spec(q, t).len(),
        forall|k: int|
            0 <= k < match_positions(q, t).len() ==> 0 <= #[trigger] match_positions(q, t)[k]
                < spec_lines(t).len(),
        forall|k: int|
            0 <= k < match_positions(q, t).len() ==> spec_lines(t)[#[trigger] match_positions(
                q,
                t,
            )[k]] == search_spec(q, t)[k],
        forall|k1: int, k2: int|
            0 <= k1 < k2 < match_positions(q, t).len() ==> #[trigger] match_positions(q, t)[k1]
                < #[trigger] match_positions(q, t)[k2],
        forall|i: int|
            0 <= i < spec_lines(t).len() && is_substring_of(q, #[trigger] spec_lines(t)[i])
                ==> match_positions(q, t).contains(i),
{
    lemma_kept_indices(spec_lines(t), matches_query(q));
}

/// The case-insensitive result keeps the document's order in the same
/// way.
pub proof fn lemma_ci_search_keeps_order(q: Seq<char>, t: Seq<char>)
    ensures
        ci_match_positions(q, t).len() == search_ci_spec(q, t).len(),
        forall|k: int|
            0 <= k < ci_match_positions(q, t).len() ==> 0 <= #[trigger] ci_match_positions(
                q,
                t,
            )[k] < spec_lines(t).len(),
        forall|k: int|
            0 <= k < ci_match_positions(q, t).len() ==> spec_lines(t)[#[trigger] ci_match_positions(
                q,
                t,
            )[k]] == search_ci_spec(q, t)[k],
        forall|k1: int, k2: int|
            0 <= k1 < k2 < ci_match_positions(q, t).len() ==> #[trigger] ci_match_positions(
                q,
                t,
            )[k1] < #[trigger] ci_match_positions(q, t)[k2],
        forall|i: int|
            0 <= i < spec_lines(t).len() && is_substring_of(
                lower_of(q),
                lower_of(#[trigger] spec_lines(t)[i]),
            ) ==> ci_match_positions(q, t).contains(i),
{
    lemma_kept_indices(spec_lines(t), ci_matches_query(q));
}

/// Searching twice on unchanged inputs gives identical output: the result
/// is a function of query, document and case mode alone.
pub proof fn lemma_search_repeatable(
    q: Seq<char>,
    t: Seq<char>,
    case_sensitive: bool,
    first: Seq<Seq<char>>,
    second: Seq<Seq<char>>,
)
    requires
        first == search_result(q, t, case_sensitive),
        second == search_result(q, t, case_sensitive),
    ensures
        first == second,
{
}

/// The empty query matches every line.
pub proof fn lemma_empty_query_matches_all(t: Seq<char>)
    ensures
        search_spec(Seq::<char>::empty(), t) == spec_lines(t),
{
    let q = Seq::<char>::empty();
    assert forall|i: int| 0 <= i < spec_lines(t).len() implies matches_query(q)(
        #[trigger] spec_lines(t)[i],
    ) by {
        assert(spec_lines(t)[i].subrange(0, 0 + q.len() as int) =~= q);
    }
    lemma_filter_all(spec_lines(t), matches_query(q));
}

/// A query whose folded form is empty matches every line in the
/// case-insensitive search; the folding wrapper states that the empty
/// query folds to the empty form.
pub proof fn lemma_ci_empty_query_matches_all(q: Seq<char>, t: Seq<char>)
    requires
        lower_of(q).len() == 0,
    ensures
        search_ci_spec(q, t) == spec_lines(t),
{
    assert forall|i: int| 0 <= i < spec_lines(t).len() implies ci_matches_query(q)(
        #[trigger] spec_lines(t)[i],
    ) by {
        assert(lower_of(spec_lines(t)[i]).subrange(0, 0 + lower_of(q).len() as int) =~= lower_of(
            q,
        ));
    }
    lemma_filter_all(spec_lines(t), ci_matches_query(q));
}

/// A query equal to a full line of the document matches that line.
pub proof fn lemma_query_equal_to_line_matches(q: Seq<char>, t: Seq<char>)
    requires
        spec_lines(t).contains(q),
    ensures
        search_spec(q, t).contains(q),
{
    broadcast use vstd::seq_lib::group_filter_ensures;

    let i = choose|i: int| 0 <= i < spec_lines(t).len() && spec_lines(t)[i] == q;
    assert(q.subrange(0, 0 + q.len() as int) =~= q);
    assert(matches_query(q)(spec_lines(t)[i]));
}

/// A query that no line contains finds nothing.
pub proof fn lemma_absent_query_finds_nothing(q: Seq<char>, t: Seq<char>)
    requires
        forall|i: int|
            0 <= i < spec_lines(t).len() ==> !is_substring_of(q, #[trigger] spec_lines(t)[i]),
    ensures
        search_spec(q, t) == Seq::<Seq<char>>::empty(),
{
    lemma_filter_none(spec_lines(t), matches_query(q));
}

/// A query whose folded form no folded line contains finds nothing in the
/// case-insensitive search.
pub proof fn lemma_ci_absent_query_finds_nothing(q: Seq<char>, t: Seq<char>)
    requires
        forall|i: int|
            0 <= i < spec_lines(t).len() ==> !is_substring_of(
                lower_of(q),
                lower_of(#[trigger] spec_lines(t)[i]),
            ),
    ensures
        search_ci_spec(q, t) == Seq::<Seq<char>>::empty(),
{
    lemma_filter_none(spec_lines(t), ci_matches_query(q));
}

} // verus!
