use minigrep::search;
use minigrep::search_case_insensitive;

#[test]
fn case_sensitive() {
    let query = "duct";

    let test = "\
Rust:
safe, fast, productive.
Pick three
Duct tape.";

    assert_eq!(vec!["safe, fast, productive."], search(query, test));
}

#[test]
fn case_insensitive() {
    let query = "RuSt";

    let test = "\
Rust:
safe, fast, productive.
Pick three.
Trust me.";

    assert_eq!(
        vec!["Rust:", "Trust me."],
        search_case_insensitive(query, test)
    );
}

#[test]
fn empty_query_returns_every_line() {
    let contents = "alpha\nbeta\ngamma";
    assert_eq!(vec!["alpha", "beta", "gamma"], search("", contents));
    assert_eq!(
        vec!["alpha", "beta", "gamma"],
        search_case_insensitive("", contents)
    );
}

#[test]
fn empty_contents_return_no_lines() {
    assert_eq!(Vec::<&str>::new(), search("anything", ""));
    assert_eq!(Vec::<&str>::new(), search("", ""));
    assert_eq!(Vec::<&str>::new(), search_case_insensitive("anything", ""));
}

#[test]
fn sensitive_results_also_found_insensitively() {
    let contents = "Rust:\nsafe, fast, productive.\nPick three.\nTrust me.";
    let query = "rust";
    let sensitive = search(query, contents);
    let insensitive = search_case_insensitive(query, contents);
    for line in &sensitive {
        assert!(insensitive.contains(line));
    }
}

#[test]
fn crlf_line_endings_are_stripped() {
    let contents = "alpha\r\nbeta\r\ngamma\r\n";
    assert_eq!(vec!["beta"], search("b", contents));
    assert_eq!(vec!["alpha", "beta", "gamma"], search("", contents));
}

#[test]
fn trailing_line_terminator_adds_no_line() {
    assert_eq!(vec!["alpha", "beta"], search("", "alpha\nbeta\n"));
}

#[test]
fn final_line_without_terminator_keeps_carriage_return() {
    assert_eq!(vec!["beta\r"], search("beta", "alpha\nbeta\r"));
}

#[test]
fn repeated_lines_are_kept_in_order() {
    let contents = "one match\nnothing\none match\n";
    assert_eq!(vec!["one match", "one match"], search("match", contents));
}

#[test]
fn case_insensitive_folds_ascii_only() {
    let contents = "WIDE\nnarrow\nMiXeD case";
    assert_eq!(
        vec!["WIDE"],
        search_case_insensitive("wide", contents)
    );
    assert_eq!(
        vec!["MiXeD case"],
        search_case_insensitive("mixed CASE", contents)
    );
}

#[test]
fn lone_carriage_return_is_ordinary_text() {
    assert_eq!(vec!["a\rb"], search("\r", "a\rb\nc"));
}
