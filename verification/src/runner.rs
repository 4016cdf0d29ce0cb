//! The runner: selecting the search variant and preparing the output lines.

use vstd::prelude::*;

use crate::colorize::colorize_query;
use crate::config::Config;
use crate::lines::owned_line_views;
use crate::replace::replaced_views;
use crate::search::search;
use crate::search::search_case_insensitive;
use crate::search::search_case_insensitive_spec;
use crate::search::search_spec;

verus! {

/// The lines that one invocation prints, in order: the matching lines of
/// `contents` under the configured comparison mode, passed through the
/// highlighting step.
pub open spec fn run_spec(query: Seq<char>, ignore_case: bool, contents: Seq<char>) -> Seq<
    Seq<char>,
> {
    let found = if ignore_case {
        search_case_insensitive_spec(query, contents)
    } else {
        search_spec(query, contents)
    };
    replaced_views(found, query, query)
}

/// Runs one search over the already loaded `contents`: selects the search
/// variant that the configuration asks for, highlights the query inside
/// each matching line, and returns the lines in their original order, ready
/// to be printed. Loading the file and printing stay with the caller, as
/// does reporting a file that could not be read.
pub fn run(config: &Config, contents: &str) -> (r: Vec<String>)
    ensures
        owned_line_views(r@) == run_spec(
            config.query_spec(),
            config.ignore_case_spec(),
            contents@,
        ),
        owned_line_views(r@) == (if config.ignore_case_spec() {
            search_case_insensitive_spec(config.query_spec(), contents@)
        } else {
            search_spec(config.query_spec(), contents@)
        }),
{
    let query = config.get_query();
    let found = if config.get_ignore_case() {
        search_case_insensitive(query, contents)
    } else {
        search(query, contents)
    };
    colorize_query(query, found)
}

} // verus!
