//! The line filter: every line of the document that contains the query,
//! in document order, case-sensitively or on the case-folded forms.

use vstd::prelude::*;

use crate::casefold::lower_of;
use crate::casefold::to_lowercase;
use crate::config::Config;
use crate::lines::spec_lines;
use crate::lines::split_lines;
use crate::seq_facts::lemma_filter_all;
use crate::seq_facts::lemma_filter_push;
use crate::substring::contains_substring;
use crate::substring::is_substring_of;

verus! {

/// The predicate a case-sensitive search applies to each line.
pub open spec fn matches_query(q: Seq<char>) -> spec_fn(Seq<char>) -> bool {
    |l: Seq<char>| is_substring_of(q, l)
}

/// The predicate a case-insensitive search applies to each line: both
/// sides are compared in their folded forms.
pub open spec fn ci_matches_query(q: Seq<char>) -> spec_fn(Seq<char>) -> bool {
    |l: Seq<char>| is_substring_of(lower_of(q), lower_of(l))
}

/// What the case-sensitive search returns: the lines that contain the
/// query, kept in document order, duplicates and all.
pub open spec fn search_spec(q: Seq<char>, t: Seq<char>) -> Seq<Seq<char>> {
    spec_lines(t).filter(matches_query(q))
}

/// What the case-insensitive search returns: the lines whose folded form
/// contains the folded query, the lines themselves unchanged.
pub open spec fn search_ci_spec(q: Seq<char>, t: Seq<char>) -> Seq<Seq<char>> {
    spec_lines(t).filter(ci_matches_query(q))
}

/// The result a configuration asks for, in either case mode.
pub open spec fn search_result(q: Seq<char>, t: Seq<char>, case_sensitive: bool) -> Seq<
    Seq<char>,
> {
    if case_sensitive {
        search_spec(q, t)
    } else {
        search_ci_spec(q, t)
    }
}

/// Case-sensitive search: exact containment, no normalization.
pub fn search<'a>(query: &str, contents: &'a str) -> (r: Vec<&'a str>)
    ensures
        r.deep_view() == search_spec(query@, contents@),
        query@.len() == 0 ==> r.deep_view() == spec_lines(contents@),
{
    let lines: Vec<&'a str> = split_lines(contents);
    let ghost all = spec_lines(contents@);
    let mut r: Vec<&'a str> = Vec::new();
    let mut idx: usize = 0;
    proof {
        assert(all.subrange(0, 0) =~= Seq::<Seq<char>>::empty());
        reveal(Seq::filter);
    }
    while idx < lines.len()
        invariant
            lines.deep_view() == all,
            all == spec_lines(contents@),
            idx <= lines@.len(),
            r.deep_view() == all.subrange(0, idx as int).filter(matches_query(query@)),
        decreases lines@.len() - idx,
    {
        let line: &'a str = lines[idx];
        let ghost prev = r.deep_view();
        proof {
            assert(line@ == lines.deep_view()[idx as int]);
        }
        if contains_substring(line, query) {
            r.push(line);
            proof {
                assert(r.deep_view() =~= prev.push(line@));
            }
        }
        proof {
            lemma_filter_push(
                all.subrange(0, idx as int),
                all[idx as int],
                matches_query(query@),
            );
            assert(all.subrange(0, idx as int).push(all[idx as int]) =~= all.subrange(
                0,
                idx + 1,
            ));
        }
        idx = idx + 1;
    }
    proof {
        assert(all.subrange(0, all.len() as int) =~= all);
        if query@.len() == 0 {
            assert forall|i: int| 0 <= i < all.len() implies matches_query(query@)(
                #[trigger] all[i],
            ) by {
                assert(all[i].subrange(0, 0 + query@.len() as int) =~= query@);
            }
            lemma_filter_all(all, matches_query(query@));
        }
    }
    r
}

/// Case-insensitive search: the query is folded once, each line is folded
/// for the comparison only, and matched lines are returned exactly as the
/// document holds them.
pub fn search_case_insensitive<'a>(query: &str, contents: &'a str) -> (r: Vec<&'a str>)
    ensures
        r.deep_view() == search_ci_spec(query@, contents@),
        query@.len() == 0 ==> r.deep_view() == spec_lines(contents@),
{
    let lower_query: String = to_lowercase(query);
    let lines: Vec<&'a str> = split_lines(contents);
    let ghost all = spec_lines(contents@);
    let mut r: Vec<&'a str> = Vec::new();
    let mut idx: usize = 0;
    proof {
        assert(all.subrange(0, 0) =~= Seq::<Seq<char>>::empty());
        reveal(Seq::filter);
    }
    while idx < lines.len()
        invariant
            lines.deep_view() == all,
            all == spec_lines(contents@),
            lower_query@ == lower_of(query@),
            idx <= lines@.len(),
            r.deep_view() == all.subrange(0, idx as int).filter(ci_matches_query(query@)),
        decreases lines@.len() - idx,
    {
        let line: &'a str = lines[idx];
        let lower_line: String = to_lowercase(line);
        let ghost prev = r.deep_view();
        proof {
            assert(line@ == lines.deep_view()[idx as int]);
        }
        if contains_substring(lower_line.as_str(), lower_query.as_str()) {
            r.push(line);
            proof {
                assert(r.deep_view() =~= prev.push(line@));
            }
        }
        proof {
            lemma_filter_push(
                all.subrange(0, idx as int),
                all[idx as int],
                ci_matches_query(query@),
            );
            assert(all.subrange(0, idx as int).push(all[idx as int]) =~= all.subrange(
                0,
                idx + 1,
            ));
        }
        idx = idx + 1;
    }
    proof {
        assert(all.subrange(0, all.len() as int) =~= all);
        if query@.len() == 0 {
            assert(lower_of(query@).len() == 0);
            assert forall|i: int| 0 <= i < all.len() implies ci_matches_query(query@)(
                #[trigger] all[i],
            ) by {
                assert(lower_of(all[i]).subrange(0, 0 + lower_of(query@).len() as int)
                    =~= lower_of(query@));
            }
            lemma_filter_all(all, ci_matches_query(query@));
        }
    }
    r
}

/// The search that a resolved configuration asks for: the matcher follows
/// the configuration's case mode, nothing else changes.
pub fn search_with_config<'a>(config: &Config, contents: &'a str) -> (r: Vec<&'a str>)
    ensures
        r.deep_view() == search_result(config.query@, contents@, config.case_sensitive),
{
    if config.case_sensitive {
        search(config.query.as_str(), contents)
    } else {
        search_case_insensitive(config.query.as_str(), contents)
    }
}

} // verus!
