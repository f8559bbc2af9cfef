//! The line filter, in its case-sensitive and case-insensitive modes.
use vstd::prelude::*;

use crate::config::Config;
use crate::lines::{lines_of, split_lines, views};
use crate::text::{contains_query, occurs_in};

verus! {

/// The lowercase form of `s` under Unicode's lowercase mapping.
pub uninterp spec fn lower_of(s: Seq<char>) -> Seq<char>;

/// Relies on str::to_lowercase: a new string holding the Unicode lowercase
/// mapping of `s`, which depends on the characters of `s` alone.
#[verifier::external_body]
fn to_lower(s: &str) -> (r: String)
    ensures
        r@ == lower_of(s@),
{
    s.to_lowercase()
}

/// The lines among `ls` in which `q` occurs, in their order.
pub open spec fn keep_containing(q: Seq<char>, ls: Seq<Seq<char>>) -> Seq<Seq<char>> {
    ls.filter(|l: Seq<char>| occurs_in(q, l))
}

/// The lines among `ls` in which `q` occurs once both are lowercased, in
/// their order and as they were.
pub open spec fn keep_containing_folded(q: Seq<char>, ls: Seq<Seq<char>>) -> Seq<Seq<char>> {
    ls.filter(|l: Seq<char>| occurs_in(lower_of(q), lower_of(l)))
}

/// The lines of `contents` that contain `query`, case-sensitively.
pub open spec fn search_spec(query: Seq<char>, contents: Seq<char>) -> Seq<Seq<char>> {
    keep_containing(query, lines_of(contents))
}

/// The lines of `contents` that contain `query`, ignoring case.
pub open spec fn search_folded_spec(query: Seq<char>, contents: Seq<char>) -> Seq<Seq<char>> {
    keep_containing_folded(query, lines_of(contents))
}

/// The lines of `contents` that contain `query`, in order, as slices of
/// `contents`.
pub fn search<'a>(query: &str, contents: &'a str) -> (r: Vec<&'a str>)
    ensures
        views(r@) == search_spec(query@, contents@),
{
    let lines = split_lines(contents);
    let mut out: Vec<&'a str> = Vec::new();
    let mut k: usize = 0;
    while k < lines.len()
        invariant
            k <= lines@.len(),
            views(lines@) == lines_of(contents@),
            views(out@) == keep_containing(query@, views(lines@).take(k as int)),
        decreases lines@.len() - k,
    {
        let line = lines[k];
        proof {
            assert(views(lines@).take(k + 1) =~= views(lines@).take(k as int).push(line@));
            views(lines@).take(k as int).lemma_filter_push(
                line@,
                |l: Seq<char>| occurs_in(query@, l),
            );
        }
        let ghost prev = out@;
        if contains_query(line, query) {
            out.push(line);
            proof {
                assert(views(out@) =~= views(prev).push(line@));
            }
        }
        k += 1;
    }
    proof {
        assert(views(lines@).take(k as int) =~= views(lines@));
    }
    out
}

/// The lines of `contents` that contain `query` once both are lowercased, in
/// order, as slices of `contents` (not lowercased).
pub fn search_case_insensitive<'a>(query: &str, contents: &'a str) -> (r: Vec<&'a str>)
    ensures
        views(r@) == search_folded_spec(query@, contents@),
{
    let lowered_query = to_lower(query);
    let lines = split_lines(contents);
    let mut out: Vec<&'a str> = Vec::new();
    let mut k: usize = 0;
    while k < lines.len()
        invariant
            k <= lines@.len(),
            lowered_query@ == lower_of(query@),
            views(lines@) == lines_of(contents@),
            views(out@) == keep_containing_folded(query@, views(lines@).take(k as int)),
        decreases lines@.len() - k,
    {
        let line = lines[k];
        proof {
            assert(views(lines@).take(k + 1) =~= views(lines@).take(k as int).push(line@));
            views(lines@).take(k as int).lemma_filter_push(
                line@,
                |l: Seq<char>| occurs_in(lower_of(query@), lower_of(l)),
            );
        }
        let lowered_line = to_lower(line);
        let ghost prev = out@;
        if contains_query(lowered_line.as_str(), lowered_query.as_str()) {
            out.push(line);
            proof {
                assert(views(out@) =~= views(prev).push(line@));
            }
        }
        k += 1;
    }
    proof {
        assert(views(lines@).take(k as int) =~= views(lines@));
    }
    out
}

/// The lines of `contents` that match the query of `config`, in the mode
/// that `config` selects.
pub fn matching_lines<'a>(config: &Config, contents: &'a str) -> (r: Vec<&'a str>)
    ensures
        views(r@) == if config.case_sensitive {
            search_spec(config.query@, contents@)
        } else {
            search_folded_spec(config.query@, contents@)
        },
{
    if config.case_sensitive {
        search(config.query.as_str(), contents)
    } else {
        search_case_insensitive(config.query.as_str(), contents)
    }
}

/// Empty text has no lines, so no query matches anything in it, in either
/// mode.
pub proof fn lemma_empty_contents_match_nothing(query: Seq<char>)
    ensures
        search_spec(query, Seq::empty()) == Seq::<Seq<char>>::empty(),
        search_folded_spec(query, Seq::empty()) == Seq::<Seq<char>>::empty(),
{
    let p = crate::lines::pieces(Seq::<char>::empty());
    assert(p.drop_last() =~= Seq::<Seq<char>>::empty());
    assert(lines_of(Seq::empty()) =~= Seq::<Seq<char>>::empty());
    reveal(Seq::filter);
}

/// The filter is a function of its inputs: two searches with the same query
/// over the same contents give the same lines in the same order, in either
/// mode. Filtering its result again changes nothing.
pub proof fn lemma_search_repeatable<'a, 'b>(
    query: Seq<char>,
    contents: Seq<char>,
    first: Seq<&'a str>,
    second: Seq<&'b str>,
    case_sensitive: bool,
)
    requires
        views(first) == (if case_sensitive {
            search_spec(query, contents)
        } else {
            search_folded_spec(query, contents)
        }),
        views(second) == (if case_sensitive {
            search_spec(query, contents)
        } else {
            search_folded_spec(query, contents)
        }),
    ensures
        views(first) == views(second),
        case_sensitive ==> keep_containing(query, views(first)) == views(first),
        !case_sensitive ==> keep_containing_folded(query, views(first)) == views(first),
{
    let ls = lines_of(contents);
    if case_sensitive {
        lemma_filter_twice(ls, |l: Seq<char>| occurs_in(query, l));
    } else {
        lemma_filter_twice(ls, |l: Seq<char>| occurs_in(lower_of(query), lower_of(l)));
    }
}

proof fn lemma_filter_twice(ls: Seq<Seq<char>>, pred: spec_fn(Seq<char>) -> bool)
    ensures
        ls.filter(pred).filter(pred) == ls.filter(pred),
    decreases ls.len(),
{
    reveal(Seq::filter);
    if ls.len() > 0 {
        lemma_filter_twice(ls.drop_last(), pred);
        let sub = ls.drop_last().filter(pred);
        if pred(ls.last()) {
            sub.lemma_filter_push(ls.last(), pred);
        }
    }
}

} // verus!
