//! The search engine: the ordered matching lines of a text.

use vstd::prelude::*;

use crate::lines::line_views;
use crate::lines::lines_of;
use crate::lines::split_lines;
use crate::text::contains_substring;
use crate::text::contains_substring_insensitive;
use crate::text::is_substring;
use crate::text::lemma_lower_preserves_substring;
use crate::text::lower;

verus! {

/// Does a line match `query` case-sensitively?
pub open spec fn line_matches(query: Seq<char>) -> spec_fn(Seq<char>) -> bool {
    |line: Seq<char>| is_substring(query, line)
}

/// Does a line match `query` once both are case folded?
pub open spec fn line_matches_insensitive(query: Seq<char>) -> spec_fn(Seq<char>) -> bool {
    |line: Seq<char>| is_substring(lower(query), lower(line))
}

/// The lines of `contents` that contain `query`, in their original order.
pub open spec fn search_spec(query: Seq<char>, contents: Seq<char>) -> Seq<Seq<char>> {
    lines_of(contents).filter(line_matches(query))
}

/// The lines of `contents` whose case folding contains the case folding of
/// `query`, in their original order.
pub open spec fn search_case_insensitive_spec(query: Seq<char>, contents: Seq<char>) -> Seq<
    Seq<char>,
> {
    lines_of(contents).filter(line_matches_insensitive(query))
}

/// Case-sensitive search: returns exactly the lines of `contents` that
/// contain `query`, in their original order, as slices borrowing from
/// `contents`.
pub fn search<'a>(query: &str, contents: &'a str) -> (r: Vec<&'a str>)
    ensures
        line_views(r@) == search_spec(query@, contents@),
{
    let lines = split_lines(contents);
    let mut out: Vec<&'a str> = Vec::new();
    let mut i: usize = 0;
    proof {
        reveal(Seq::filter);
        assert(line_views(lines@).take(0) =~= Seq::<Seq<char>>::empty());
        assert(line_views(out@) =~= line_views(lines@).take(0).filter(line_matches(query@)));
    }
    while i < lines.len()
        invariant
            line_views(lines@) == lines_of(contents@),
            0 <= i <= lines@.len(),
            line_views(out@) == line_views(lines@).take(i as int).filter(line_matches(query@)),
        decreases lines@.len() - i,
    {
        let line = lines[i];
        proof {
            assert(line_views(lines@)[i as int] == line@);
            assert(line_views(lines@).take(i + 1) =~= line_views(lines@).take(i as int).push(
                line@,
            ));
            line_views(lines@).take(i as int).lemma_filter_push(line@, line_matches(query@));
        }
        if contains_substring(line, query) {
            proof {
                assert(line_views(out@.push(line)) =~= line_views(out@).push(line@));
            }
            out.push(line);
        }
        i += 1;
    }
    proof {
        assert(line_views(lines@).take(lines@.len() as int) =~= line_views(lines@));
    }
    out
}

/// Case-insensitive search: returns exactly the lines of `contents` that
/// contain `query` once both the line and the query are case folded, in
/// their original order, as slices borrowing from `contents`.
pub fn search_case_insensitive<'a>(query: &str, contents: &'a str) -> (r: Vec<&'a str>)
    ensures
        line_views(r@) == search_case_insensitive_spec(query@, contents@),
{
    let lines = split_lines(contents);
    let mut out: Vec<&'a str> = Vec::new();
    let mut i: usize = 0;
    proof {
        reveal(Seq::filter);
        assert(line_views(lines@).take(0) =~= Seq::<Seq<char>>::empty());
        assert(line_views(out@) =~= line_views(lines@).take(0).filter(
            line_matches_insensitive(query@),
        ));
    }
    while i < lines.len()
        invariant
            line_views(lines@) == lines_of(contents@),
            0 <= i <= lines@.len(),
            line_views(out@) == line_views(lines@).take(i as int).filter(
                line_matches_insensitive(query@),
            ),
        decreases lines@.len() - i,
    {
        let line = lines[i];
        proof {
            assert(line_views(lines@)[i as int] == line@);
            assert(line_views(lines@).take(i + 1) =~= line_views(lines@).take(i as int).push(
                line@,
            ));
            line_views(lines@).take(i as int).lemma_filter_push(
                line@,
                line_matches_insensitive(query@),
            );
        }
        if contains_substring_insensitive(line, query) {
            proof {
                assert(line_views(out@.push(line)) =~= line_views(out@).push(line@));
            }
            out.push(line);
        }
        i += 1;
    }
    proof {
        assert(line_views(lines@).take(lines@.len() as int) =~= line_views(lines@));
    }
    out
}

/// The case-sensitive search is sound and complete: every returned line is a
/// line of the contents that contains the query, and every line of the
/// contents that contains the query is returned.
pub proof fn lemma_search_sound_and_complete(query: Seq<char>, contents: Seq<char>)
    ensures
        forall|i: int|
            0 <= i < search_spec(query, contents).len() ==> is_substring(
                query,
                #[trigger] search_spec(query, contents)[i],
            ) && lines_of(contents).contains(search_spec(query, contents)[i]),
        forall|j: int|
            0 <= j < lines_of(contents).len() && is_substring(
                query,
                #[trigger] lines_of(contents)[j],
            ) ==> search_spec(query, contents).contains(lines_of(contents)[j]),
{
    broadcast use vstd::seq_lib::group_filter_ensures;
    broadcast use Seq::lemma_filter_contains_rev;

    let found = search_spec(query, contents);
    assert forall|i: int| 0 <= i < found.len() implies is_substring(query, #[trigger] found[i])
        && lines_of(contents).contains(found[i]) by {
        assert(found.contains(found[i]));
    }
}

/// Every line that the case-sensitive search returns, the case-insensitive
/// search returns as well: an occurrence of the query folds into an
/// occurrence of the folded query.
pub proof fn lemma_search_within_case_insensitive(query: Seq<char>, contents: Seq<char>)
    ensures
        forall|line: Seq<char>| #[trigger]
            search_spec(query, contents).contains(line) ==> search_case_insensitive_spec(
                query,
                contents,
            ).contains(line),
{
    broadcast use vstd::seq_lib::group_filter_ensures;
    broadcast use Seq::lemma_filter_contains_rev;

    let lines = lines_of(contents);
    assert forall|line: Seq<char>| #[trigger]
        search_spec(query, contents).contains(line) implies search_case_insensitive_spec(
        query,
        contents,
    ).contains(line) by {
        assert(lines.contains(line));
        let j = choose|j: int| 0 <= j < lines.len() && lines[j] == line;
        let i = choose|i: int|
            0 <= i < search_spec(query, contents).len() && search_spec(query, contents)[i] == line;
        assert(is_substring(query, line));
        lemma_lower_preserves_substring(query, line);
        assert(line_matches_insensitive(query)(lines[j]));
    }
}

/// An empty query matches every line, under either comparison mode.
pub proof fn lemma_empty_query_matches_every_line(contents: Seq<char>)
    ensures
        search_spec(Seq::empty(), contents) == lines_of(contents),
        search_case_insensitive_spec(Seq::empty(), contents) == lines_of(contents),
{
    let lines = lines_of(contents);
    let empty = Seq::<char>::empty();
    assert forall|i: int| 0 <= i < lines.len() implies line_matches(empty)(#[trigger] lines[i]) by {
        assert(lines[i].subrange(0, 0 + empty.len() as int) =~= empty);
    }
    assert forall|i: int| 0 <= i < lines.len() implies line_matches_insensitive(empty)(
        #[trigger] lines[i],
    ) by {
        assert(lower(lines[i]).subrange(0, 0 + lower(empty).len() as int) =~= lower(empty));
    }
    lemma_filter_everything(lines, line_matches(empty));
    lemma_filter_everything(lines, line_matches_insensitive(empty));
}

/// Empty contents have no lines, so any search over them returns nothing.
pub proof fn lemma_empty_contents_yields_no_lines(query: Seq<char>)
    ensures
        search_spec(query, Seq::empty()) == Seq::<Seq<char>>::empty(),
        search_case_insensitive_spec(query, Seq::empty()) == Seq::<Seq<char>>::empty(),
{
    reveal(Seq::filter);
    assert(lines_of(Seq::empty()) == Seq::<Seq<char>>::empty());
}

/// Filtering with a predicate that holds of every element keeps the whole
/// sequence.
proof fn lemma_filter_everything(s: Seq<Seq<char>>, p: spec_fn(Seq<char>) -> bool)
    requires
        forall|i: int| 0 <= i < s.len() ==> p(#[trigger] s[i]),
    ensures
        s.filter(p) == s,
    decreases s.len(),
{
    reveal(Seq::filter);
    if s.len() == 0 {
        assert(s.filter(p) =~= s);
    } else {
        assert forall|i: int| 0 <= i < s.drop_last().len() implies p(
            #[trigger] s.drop_last()[i],
        ) by {
            assert(s.drop_last()[i] == s[i]);
        }
        lemma_filter_everything(s.drop_last(), p);
        assert(p(s.last()));
        assert(s.drop_last().push(s.last()) =~= s);
        assert(s.filter(p) =~= s);
    }
}

} // verus!
