use minigrep::Config;
use minigrep::ConfigError;

fn args(list: &[&str]) -> Vec<String> {
    list.iter().map(|s| s.to_string()).collect()
}

#[test]
fn build_without_query_fails() {
    let result = Config::build(&args(&["prog"]), false);
    assert_eq!(Err(ConfigError::MissingQuery), result.map(|_| ()));
}

#[test]
fn build_without_file_path_fails() {
    let result = Config::build(&args(&["prog", "q"]), false);
    assert_eq!(Err(ConfigError::MissingFilePath), result.map(|_| ()));
}

#[test]
fn build_with_both_arguments_succeeds() {
    let config = Config::build(&args(&["prog", "q", "path"]), false).unwrap();
    assert_eq!("q", config.get_query());
    assert_eq!("path", config.get_file_path());
    assert!(!config.get_ignore_case());
}

#[test]
fn build_ignores_extra_arguments() {
    let config = Config::build(&args(&["prog", "q", "path", "extra", "more"]), true).unwrap();
    assert_eq!("q", config.get_query());
    assert_eq!("path", config.get_file_path());
    assert!(config.get_ignore_case());
}

#[test]
fn build_takes_arguments_literally() {
    let config = Config::build(&args(&["prog", "  spaced query ", "a path.txt"]), false).unwrap();
    assert_eq!("  spaced query ", config.get_query());
    assert_eq!("a path.txt", config.get_file_path());
}

#[test]
fn error_messages() {
    assert_eq!("missing query", ConfigError::MissingQuery.message());
    assert_eq!("missing file path", ConfigError::MissingFilePath.message());
}
