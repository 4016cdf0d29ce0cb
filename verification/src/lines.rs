//! Splitting the full text of a file into lines.
//!
//! The text is cut at every line feed; a carriage return that immediately
//! precedes a line feed is dropped from its line, and a trailing line
//! terminator does not produce a final empty line. A final segment that no
//! line feed terminates is kept whole.

use vstd::prelude::*;

verus! {

/// The character position of the first line feed in `s`, or `s.len()` when
/// `s` holds none.
pub open spec fn first_line_end(s: Seq<char>) -> int
    decreases s.len(),
{
    if s.len() == 0 {
        0
    } else if s[0] == '\n' {
        0
    } else {
        1 + first_line_end(s.drop_first())
    }
}

/// `first_line_end` points at the first line feed of `s`, or just past the
/// end when there is none.
pub proof fn lemma_first_line_end(s: Seq<char>)
    ensures
        0 <= first_line_end(s) <= s.len(),
        first_line_end(s) < s.len() ==> s[first_line_end(s)] == '\n',
        forall|j: int| 0 <= j < first_line_end(s) ==> s[j] != '\n',
    decreases s.len(),
{
    if s.len() == 0 {
    } else if s[0] == '\n' {
    } else {
        lemma_first_line_end(s.drop_first());
        assert forall|j: int| 0 <= j < first_line_end(s) implies s[j] != '\n' by {
            if j >= 1 {
                assert(s.drop_first()[j - 1] == s[j]);
            }
        }
        if first_line_end(s) < s.len() {
            assert(s.drop_first()[first_line_end(s.drop_first())] == s[first_line_end(s)]);
        }
    }
}

/// The characterisation pins `first_line_end` down: a position `k` with no
/// line feed before it, and a line feed (or the end of `s`) at it, is the
/// first line end.
pub proof fn lemma_first_line_end_is(s: Seq<char>, k: int)
    requires
        0 <= k <= s.len(),
        forall|j: int| 0 <= j < k ==> s[j] != '\n',
        k < s.len() ==> s[k] == '\n',
    ensures
        first_line_end(s) == k,
    decreases s.len(),
{
    if s.len() == 0 {
    } else if s[0] == '\n' {
        assert(k == 0);
    } else {
        assert(k >= 1);
        assert forall|j: int| 0 <= j < k - 1 implies s.drop_first()[j] != '\n' by {
            assert(s.drop_first()[j] == s[j + 1]);
        }
        if k - 1 < s.drop_first().len() {
            assert(s.drop_first()[k - 1] == s[k]);
        }
        lemma_first_line_end_is(s.drop_first(), k - 1);
    }
}

/// A line with one trailing carriage return removed, as happens to a line
/// that a carriage return and line feed pair terminated.
pub open spec fn strip_cr(line: Seq<char>) -> Seq<char> {
    if line.len() > 0 && line.last() == '\r' {
        line.drop_last()
    } else {
        line
    }
}

/// The lines of `s`, in order: `s` is cut at every line feed, a carriage
/// return just before a line feed is dropped, a trailing line terminator
/// yields no final empty line, and a final segment without a line feed is
/// kept whole.
pub open spec fn lines_of(s: Seq<char>) -> Seq<Seq<char>>
    decreases s.len(),
    via lines_of_decreases
{
    if s.len() == 0 {
        Seq::empty()
    } else {
        let e = first_line_end(s);
        if e == s.len() {
            seq![s]
        } else {
            seq![strip_cr(s.take(e))] + lines_of(s.skip(e + 1))
        }
    }
}

#[via_fn]
proof fn lines_of_decreases(s: Seq<char>) {
    lemma_first_line_end(s);
}

/// One unfolding of `lines_of` at a position `e` that satisfies the
/// characterisation of the first line end.
pub proof fn lemma_lines_of_step(s: Seq<char>, e: int)
    requires
        0 <= e <= s.len(),
        forall|j: int| 0 <= j < e ==> s[j] != '\n',
        e < s.len() ==> s[e] == '\n',
    ensures
        e == s.len() && s.len() > 0 ==> lines_of(s) == seq![s],
        s.len() == 0 ==> lines_of(s) == Seq::<Seq<char>>::empty(),
        e < s.len() ==> lines_of(s) == seq![strip_cr(s.take(e))] + lines_of(s.skip(e + 1)),
{
    lemma_first_line_end_is(s, e);
}

/// The character sequences of a sequence of borrowed line slices.
pub open spec fn line_views(lines: Seq<&str>) -> Seq<Seq<char>> {
    lines.map_values(|line: &str| line@)
}

/// The character sequences of a sequence of owned lines.
pub open spec fn owned_line_views(lines: Seq<String>) -> Seq<Seq<char>> {
    lines.map_values(|line: String| line@)
}

/// Splits the text into its lines. Each returned slice borrows from
/// `contents`; no line text is copied.
pub fn split_lines<'a>(contents: &'a str) -> (r: Vec<&'a str>)
    ensures
        line_views(r@) == lines_of(contents@),
{
    let n = contents.unicode_len();
    let mut out: Vec<&'a str> = Vec::new();
    let mut start: usize = 0;
    let mut i: usize = 0;
    proof {
        assert(contents@.skip(0) =~= contents@);
        assert(line_views(out@) =~= Seq::<Seq<char>>::empty());
        assert(line_views(out@) + lines_of(contents@.skip(0)) =~= lines_of(contents@));
    }
    while i < n
        invariant
            n == contents@.len(),
            0 <= start <= i <= n,
            forall|j: int| start <= j < i ==> contents@[j] != '\n',
            line_views(out@) + lines_of(contents@.skip(start as int)) == lines_of(contents@),
        decreases n - i,
    {
        if contents.get_char(i) == '\n' {
            let line: &'a str = if i > start && contents.get_char(i - 1) == '\r' {
                contents.substring_char(start, i - 1)
            } else {
                contents.substring_char(start, i)
            };
            proof {
                let tail = contents@.skip(start as int);
                assert forall|j: int| 0 <= j < i - start implies tail[j] != '\n' by {
                    assert(tail[j] == contents@[start + j]);
                }
                assert(tail[i - start] == contents@[i as int]);
                lemma_lines_of_step(tail, i - start);
                assert(tail.take(i - start) =~= contents@.subrange(start as int, i as int));
                assert(strip_cr(tail.take(i - start)) =~= line@);
                assert(tail.skip(i - start + 1) =~= contents@.skip(i + 1));
                assert(line_views(out@.push(line)) =~= line_views(out@).push(line@));
                assert(line_views(out@).push(line@) + lines_of(contents@.skip(i + 1))
                    =~= line_views(out@) + (seq![line@] + lines_of(contents@.skip(i + 1))));
                assert(seq![line@] + lines_of(contents@.skip(i + 1)) == lines_of(
                    contents@.skip(start as int),
                ));
            }
            out.push(line);
            start = i + 1;
        }
        i += 1;
    }
    if start < n {
        let line = contents.substring_char(start, n);
        proof {
            let tail = contents@.skip(start as int);
            assert forall|j: int| 0 <= j < tail.len() implies tail[j] != '\n' by {
                assert(tail[j] == contents@[start + j]);
            }
            lemma_lines_of_step(tail, tail.len() as int);
            assert(tail =~= line@);
            assert(line_views(out@.push(line)) =~= line_views(out@).push(line@));
            assert(line_views(out@).push(line@) =~= line_views(out@) + seq![line@]);
        }
        out.push(line);
    } else {
        proof {
            assert(lines_of(contents@.skip(start as int)) =~= Seq::<Seq<char>>::empty());
            assert(line_views(out@) + lines_of(contents@.skip(start as int)) =~= line_views(out@));
        }
    }
    out
}

} // verus!
