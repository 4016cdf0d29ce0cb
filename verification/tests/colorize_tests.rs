use minigrep::colorize_query;

#[test]
fn colorize_leaves_line_text_unchanged() {
    let lines = vec!["safe, fast, productive.", "duct tape, duct tape"];
    let highlighted = colorize_query("duct", lines);
    assert_eq!(
        vec![
            "safe, fast, productive.".to_string(),
            "duct tape, duct tape".to_string(),
        ],
        highlighted
    );
}

#[test]
fn colorize_twice_changes_nothing_further() {
    let lines = vec!["Duct tape.", "productive"];
    let once = colorize_query("duct", lines);
    let again: Vec<&str> = once.iter().map(|line| line.as_str()).collect();
    let twice = colorize_query("duct", again);
    assert_eq!(once, twice);
}

#[test]
fn colorize_with_empty_query() {
    let lines = vec!["plain line"];
    assert_eq!(vec!["plain line".to_string()], colorize_query("", lines));
}

#[test]
fn colorize_of_no_lines() {
    assert_eq!(Vec::<String>::new(), colorize_query("q", Vec::new()));
}
