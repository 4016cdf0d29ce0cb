use minigrep::run;
use minigrep::Config;

fn config_for(query: &str, ignore_case: bool) -> Config {
    let args: Vec<String> = vec![
        "prog".to_string(),
        query.to_string(),
        "poem.txt".to_string(),
    ];
    Config::build(&args, ignore_case).unwrap()
}

const CONTENTS: &str = "\
Rust:
safe, fast, productive.
Pick three.
Trust me.";

#[test]
fn run_case_sensitive_scenario() {
    let config = config_for("duct", false);
    assert_eq!(vec!["safe, fast, productive.".to_string()], run(&config, CONTENTS));
}

#[test]
fn run_case_insensitive_scenario() {
    let config = config_for("RuSt", true);
    assert_eq!(
        vec!["Rust:".to_string(), "Trust me.".to_string()],
        run(&config, CONTENTS)
    );
}

#[test]
fn run_without_matches_prints_nothing() {
    let config = config_for("quartz", false);
    assert_eq!(Vec::<String>::new(), run(&config, CONTENTS));
}

#[test]
fn run_respects_comparison_mode() {
    let sensitive = config_for("rust", false);
    assert_eq!(vec!["Trust me.".to_string()], run(&sensitive, CONTENTS));
    let insensitive = config_for("rust", true);
    assert_eq!(
        vec!["Rust:".to_string(), "Trust me.".to_string()],
        run(&insensitive, CONTENTS)
    );
}
