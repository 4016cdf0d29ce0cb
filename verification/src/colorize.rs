//! The presentation step: highlighting the query inside matching lines.

use vstd::prelude::*;

use crate::lines::line_views;
use crate::lines::owned_line_views;
use crate::replace::lemma_replace_self_identity;
use crate::replace::lemma_replaced_views_identity;
use crate::replace::replace_all;
use crate::replace::replaced_views;

verus! {

/// The highlight marker for `query`, produced by the styling crate.
///
/// Relies on `colored::Colorize::yellow` for `&str` and on `ColoredString`'s
/// `Deref` impl: `yellow` stores the text it was given unchanged in the
/// `input` field of the returned `ColoredString`, recording the colour
/// beside it, and dereferencing yields exactly that field. The colour is
/// applied only when the value is displayed, so the text obtained here is
/// the query itself, unstyled.
#[verifier::external_body]
fn styled_marker(query: &str) -> (r: String)
    ensures
        r@ == query@,
{
    let styled = colored::Colorize::yellow(query);
    let text: &str = &styled;
    text.to_owned()
}

/// Rewrites each line for presentation, replacing every occurrence of
/// `query` by the marker obtained from the styling crate. The marker
/// dereferences to the query text itself, so each line comes back unchanged
/// as an owned string, and a second pass over the output changes nothing.
pub fn colorize_query(query: &str, result: Vec<&str>) -> (r: Vec<String>)
    ensures
        owned_line_views(r@) == replaced_views(line_views(result@), query@, query@),
        owned_line_views(r@) == line_views(result@),
{
    let marker = styled_marker(query);
    let mut out: Vec<String> = Vec::new();
    let mut i: usize = 0;
    proof {
        assert(owned_line_views(out@) =~= line_views(result@).take(0));
    }
    while i < result.len()
        invariant
            marker@ == query@,
            0 <= i <= result@.len(),
            owned_line_views(out@) == line_views(result@).take(i as int),
        decreases result@.len() - i,
    {
        let line = result[i];
        let rewritten = replace_all(line, query, marker.as_str());
        proof {
            lemma_replace_self_identity(line@, query@);
            assert(rewritten@ == line@);
            assert(owned_line_views(out@.push(rewritten)) =~= owned_line_views(out@).push(
                rewritten@,
            ));
            assert(line_views(result@).take(i + 1) =~= line_views(result@).take(i as int).push(
                line@,
            ));
        }
        out.push(rewritten);
        i += 1;
    }
    proof {
        assert(line_views(result@).take(result@.len() as int) =~= line_views(result@));
        lemma_replaced_views_identity(line_views(result@), query@);
    }
    out
}

} // verus!
