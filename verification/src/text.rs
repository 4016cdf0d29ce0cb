//! Character-level text primitives: ASCII case folding and substring
//! containment over character sequences.

use vstd::prelude::*;

verus! {

/// ASCII case folding of a single character: the uppercase letters `'A'`
/// through `'Z'` map to their lowercase counterparts, every other character
/// is unchanged.
pub open spec fn lower_char(c: char) -> char {
    match c {
        'A' => 'a',
        'B' => 'b',
        'C' => 'c',
        'D' => 'd',
        'E' => 'e',
        'F' => 'f',
        'G' => 'g',
        'H' => 'h',
        'I' => 'i',
        'J' => 'j',
        'K' => 'k',
        'L' => 'l',
        'M' => 'm',
        'N' => 'n',
        'O' => 'o',
        'P' => 'p',
        'Q' => 'q',
        'R' => 'r',
        'S' => 's',
        'T' => 't',
        'U' => 'u',
        'V' => 'v',
        'W' => 'w',
        'X' => 'x',
        'Y' => 'y',
        'Z' => 'z',
        _ => c,
    }
}

/// The case folding used by the case-insensitive search, applied to a whole
/// character sequence.
pub open spec fn lower(s: Seq<char>) -> Seq<char> {
    s.map_values(|c: char| lower_char(c))
}

/// `needle` occurs as a contiguous run of characters somewhere in `hay`.
/// The empty needle occurs in every haystack.
pub open spec fn is_substring(needle: Seq<char>, hay: Seq<char>) -> bool {
    exists|i: int|
        0 <= i <= hay.len() - needle.len() && #[trigger] hay.subrange(i, i + needle.len())
            == needle
}

/// Executable ASCII case folding of a single character.
pub(crate) fn lower_char_exec(c: char) -> (r: char)
    ensures
        r == lower_char(c),
{
    match c {
        'A' => 'a',
        'B' => 'b',
        'C' => 'c',
        'D' => 'd',
        'E' => 'e',
        'F' => 'f',
        'G' => 'g',
        'H' => 'h',
        'I' => 'i',
        'J' => 'j',
        'K' => 'k',
        'L' => 'l',
        'M' => 'm',
        'N' => 'n',
        'O' => 'o',
        'P' => 'p',
        'Q' => 'q',
        'R' => 'r',
        'S' => 's',
        'T' => 't',
        'U' => 'u',
        'V' => 'v',
        'W' => 'w',
        'X' => 'x',
        'Y' => 'y',
        'Z' => 'z',
        _ => c,
    }
}

/// Does `needle` occur in `hay` starting exactly at character position `at`?
pub(crate) fn matches_at(hay: &str, at: usize, needle: &str) -> (r: bool)
    requires
        at + needle@.len() <= hay@.len(),
    ensures
        r == (hay@.subrange(at as int, at + needle@.len()) == needle@),
{
    let hn = hay.unicode_len();
    let nn = needle.unicode_len();
    let mut j: usize = 0;
    while j < nn
        invariant
            hn == hay@.len(),
            nn == needle@.len(),
            at + nn <= hn,
            0 <= j <= nn,
            forall|k: int| 0 <= k < j ==> hay@[at + k] == needle@[k],
        decreases nn - j,
    {
        if hay.get_char(at + j) != needle.get_char(j) {
            proof {
                assert(hay@.subrange(at as int, at + needle@.len())[j as int] == hay@[at + j]);
            }
            return false;
        }
        j += 1;
    }
    proof {
        assert(hay@.subrange(at as int, at + needle@.len()) =~= needle@);
    }
    true
}

/// Does the folded `needle` occur in the folded `hay` starting exactly at
/// character position `at`?
pub(crate) fn matches_at_insensitive(hay: &str, at: usize, needle: &str) -> (r: bool)
    requires
        at + needle@.len() <= hay@.len(),
    ensures
        r == (lower(hay@).subrange(at as int, at + needle@.len()) == lower(needle@)),
{
    let hn = hay.unicode_len();
    let nn = needle.unicode_len();
    let mut j: usize = 0;
    while j < nn
        invariant
            hn == hay@.len(),
            nn == needle@.len(),
            at + nn <= hn,
            0 <= j <= nn,
            forall|k: int| 0 <= k < j ==> lower_char(hay@[at + k]) == lower_char(needle@[k]),
        decreases nn - j,
    {
        if lower_char_exec(hay.get_char(at + j)) != lower_char_exec(needle.get_char(j)) {
            proof {
                assert(lower(hay@).subrange(at as int, at + needle@.len())[j as int]
                    == lower_char(hay@[at + j]));
                assert(lower(needle@)[j as int] == lower_char(needle@[j as int]));
            }
            return false;
        }
        j += 1;
    }
    proof {
        assert forall|k: int| 0 <= k < nn implies lower(hay@).subrange(
            at as int,
            at + needle@.len(),
        )[k] == lower(needle@)[k] by {
            assert(lower(hay@).subrange(at as int, at + needle@.len())[k]
                == lower_char(hay@[at + k]));
        }
        assert(lower(hay@).subrange(at as int, at + needle@.len()) =~= lower(needle@));
    }
    true
}

/// Case-sensitive substring containment: does `needle` occur anywhere in
/// `hay`?
pub fn contains_substring(hay: &str, needle: &str) -> (r: bool)
    ensures
        r == is_substring(needle@, hay@),
{
    let hn = hay.unicode_len();
    let nn = needle.unicode_len();
    if nn > hn {
        return false;
    }
    if nn == 0 {
        proof {
            assert(hay@.subrange(0, 0 + needle@.len() as int) =~= needle@);
        }
        return true;
    }
    let mut i: usize = 0;
    while i <= hn - nn
        invariant
            hn == hay@.len(),
            nn == needle@.len(),
            0 < nn <= hn,
            0 <= i <= hn - nn + 1,
            forall|ii: int| 0 <= ii < i ==> #[trigger] hay@.subrange(ii, ii + needle@.len()) != needle@,
        decreases hn - nn - i + 1,
    {
        if matches_at(hay, i, needle) {
            assert(is_substring(needle@, hay@)) by {
                assert(hay@.subrange(i as int, i + needle@.len()) == needle@);
            }
            return true;
        }
        i += 1;
    }
    false
}

/// Case-insensitive substring containment: does the folded `needle` occur
/// anywhere in the folded `hay`?
pub fn contains_substring_insensitive(hay: &str, needle: &str) -> (r: bool)
    ensures
        r == is_substring(lower(needle@), lower(hay@)),
{
    let hn = hay.unicode_len();
    let nn = needle.unicode_len();
    if nn > hn {
        return false;
    }
    if nn == 0 {
        proof {
            assert(lower(hay@).subrange(0, 0 + lower(needle@).len() as int) =~= lower(needle@));
        }
        return true;
    }
    let mut i: usize = 0;
    while i <= hn - nn
        invariant
            hn == hay@.len(),
            nn == needle@.len(),
            0 < nn <= hn,
            0 <= i <= hn - nn + 1,
            forall|ii: int|
                0 <= ii < i ==> #[trigger] lower(hay@).subrange(ii, ii + lower(needle@).len())
                    != lower(needle@),
        decreases hn - nn - i + 1,
    {
        if matches_at_insensitive(hay, i, needle) {
            assert(is_substring(lower(needle@), lower(hay@))) by {
                assert(lower(hay@).subrange(i as int, i + lower(needle@).len()) == lower(needle@));
            }
            return true;
        }
        i += 1;
    }
    false
}

/// Case folding a character sequence neither creates nor destroys substring
/// occurrences of a folded needle: an occurrence of `needle` in `hay` folds,
/// character by character, into an occurrence of the folded `needle` in the
/// folded `hay`.
pub proof fn lemma_lower_preserves_substring(needle: Seq<char>, hay: Seq<char>)
    requires
        is_substring(needle, hay),
    ensures
        is_substring(lower(needle), lower(hay)),
{
    let i = choose|i: int|
        0 <= i <= hay.len() - needle.len() && #[trigger] hay.subrange(i, i + needle.len())
            == needle;
    assert forall|k: int| 0 <= k < needle.len() implies lower(hay).subrange(
        i,
        i + lower(needle).len(),
    )[k] == lower(needle)[k] by {
        assert(hay.subrange(i, i + needle.len())[k] == hay[i + k]);
        assert(needle[k] == hay[i + k]);
    }
    assert(lower(hay).subrange(i, i + lower(needle).len()) =~= lower(needle));
    assert(0 <= i <= lower(hay).len() - lower(needle).len());
}

} // verus!
