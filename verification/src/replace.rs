//! Replacing every occurrence of a pattern inside a line.

use vstd::prelude::*;

verus! {

/// `s` with every non-overlapping occurrence of `from` replaced by `to`,
/// scanning left to right. An empty `from` matches at every character
/// boundary, so `to` then appears before every character of `s` and once at
/// the end.
pub open spec fn replace_with(s: Seq<char>, from: Seq<char>, to: Seq<char>) -> Seq<char>
    decreases s.len(),
{
    if from.len() == 0 {
        if s.len() == 0 {
            to
        } else {
            to + seq![s[0]] + replace_with(s.drop_first(), from, to)
        }
    } else if s.len() < from.len() {
        s
    } else if s.take(from.len() as int) == from {
        to + replace_with(s.skip(from.len() as int), from, to)
    } else {
        seq![s[0]] + replace_with(s.drop_first(), from, to)
    }
}

/// Replacing a pattern by itself reconstructs the line unchanged.
pub proof fn lemma_replace_self_identity(s: Seq<char>, q: Seq<char>)
    ensures
        replace_with(s, q, q) == s,
    decreases s.len(),
{
    if q.len() == 0 {
        if s.len() == 0 {
            assert(replace_with(s, q, q) =~= s);
        } else {
            lemma_replace_self_identity(s.drop_first(), q);
            assert(q + seq![s[0]] + s.drop_first() =~= s);
        }
    } else if s.len() < q.len() {
    } else if s.take(q.len() as int) == q {
        lemma_replace_self_identity(s.skip(q.len() as int), q);
        assert(q + s.skip(q.len() as int) =~= s);
    } else {
        lemma_replace_self_identity(s.drop_first(), q);
        assert(seq![s[0]] + s.drop_first() =~= s);
    }
}

/// Highlighting with a marker equal to the pattern is idempotent: a second
/// pass over the already processed line changes nothing.
pub proof fn lemma_replace_self_idempotent(s: Seq<char>, q: Seq<char>)
    ensures
        replace_with(replace_with(s, q, q), q, q) == replace_with(s, q, q),
{
    lemma_replace_self_identity(s, q);
    lemma_replace_self_identity(replace_with(s, q, q), q);
}

/// Every line of a sequence with each occurrence of `from` replaced by `to`.
pub open spec fn replaced_views(lines: Seq<Seq<char>>, from: Seq<char>, to: Seq<char>) -> Seq<
    Seq<char>,
> {
    lines.map_values(|line: Seq<char>| replace_with(line, from, to))
}

/// Replacing the pattern by itself in every line of a sequence leaves the
/// sequence unchanged.
pub proof fn lemma_replaced_views_identity(lines: Seq<Seq<char>>, q: Seq<char>)
    ensures
        replaced_views(lines, q, q) == lines,
{
    assert forall|k: int| 0 <= k < lines.len() implies replaced_views(lines, q, q)[k]
        == #[trigger] lines[k] by {
        lemma_replace_self_identity(lines[k], q);
    }
    assert(replaced_views(lines, q, q) =~= lines);
}

/// Replaces every non-overlapping occurrence of `from` in `line` by `to`,
/// scanning left to right.
pub fn replace_all(line: &str, from: &str, to: &str) -> (r: String)
    ensures
        r@ == replace_with(line@, from@, to@),
{
    let n = line.unicode_len();
    let fl = from.unicode_len();
    let mut out = String::new();
    let mut i: usize = 0;
    proof {
        assert(line@.skip(0) =~= line@);
        assert(out@ + replace_with(line@.skip(0), from@, to@) =~= replace_with(
            line@,
            from@,
            to@,
        ));
    }
    while i < n
        invariant
            n == line@.len(),
            fl == from@.len(),
            0 <= i <= n,
            out@ + replace_with(line@.skip(i as int), from@, to@) == replace_with(
                line@,
                from@,
                to@,
            ),
        decreases n - i,
    {
        let ghost tail = line@.skip(i as int);
        if fl > 0 && fl <= n - i && crate::text::matches_at(line, i, from) {
            proof {
                assert(tail.take(fl as int) =~= line@.subrange(i as int, i + fl));
                assert(tail.skip(fl as int) =~= line@.skip(i + fl));
            }
            out.append(to);
            i += fl;
        } else if fl == 0 {
            out.append(to);
            let c = line.substring_char(i, i + 1);
            out.append(c);
            proof {
                assert(c@ =~= seq![line@[i as int]]);
                assert(tail[0] == line@[i as int]);
                assert(tail.drop_first() =~= line@.skip(i + 1));
            }
            i += 1;
        } else {
            let c = line.substring_char(i, i + 1);
            out.append(c);
            proof {
                assert(c@ =~= seq![line@[i as int]]);
                if tail.len() < fl {
                    assert(replace_with(tail, from@, to@) == tail);
                    assert(line@.skip(i + 1) =~= tail.drop_first());
                    assert(replace_with(line@.skip(i + 1), from@, to@) == line@.skip(i + 1));
                    assert(out@ + seq![line@[i as int]] + line@.skip(i + 1) =~= out@ + tail);
                } else {
                    assert(tail.take(fl as int) =~= line@.subrange(i as int, i + fl));
                    assert(tail.drop_first() =~= line@.skip(i + 1));
                }
            }
            i += 1;
        }
    }
    proof {
        assert(line@.skip(n as int) =~= Seq::<char>::empty());
    }
    if fl == 0 {
        out.append(to);
    } else {
        proof {
            assert(out@ + replace_with(line@.skip(n as int), from@, to@) =~= out@);
        }
    }
    out
}

} // verus!
