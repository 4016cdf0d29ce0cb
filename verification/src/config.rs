//! Parsing process arguments into a validated, immutable configuration.

use vstd::prelude::*;

verus! {

/// Why an argument list could not be turned into a configuration.
#[derive(Clone, Copy, Debug, PartialEq, Eq, Structural)]
pub enum ConfigError {
    /// No query argument was present.
    MissingQuery,
    /// No file-path argument was present.
    MissingFilePath,
}

impl ConfigError {
    /// The diagnostic text for this error.
    pub fn message(&self) -> (r: &'static str)
        ensures
            *self == ConfigError::MissingQuery ==> r@ == "missing query"@,
            *self == ConfigError::MissingFilePath ==> r@ == "missing file path"@,
    {
        match self {
            ConfigError::MissingQuery => "missing query",
            ConfigError::MissingFilePath => "missing file path",
        }
    }
}

/// The validated settings of one invocation: what to search for, where, and
/// under which comparison mode. Immutable once built.
pub struct Config {
    query: String,
    file_path: String,
    ignore_case: bool,
}

impl Config {
    /// The query string to search for.
    pub closed spec fn query_spec(&self) -> Seq<char> {
        self.query@
    }

    /// The path of the file to search.
    pub closed spec fn file_path_spec(&self) -> Seq<char> {
        self.file_path@
    }

    /// Whether the search folds case before comparing.
    pub closed spec fn ignore_case_spec(&self) -> bool {
        self.ignore_case
    }

    /// Builds the configuration from the raw argument list. The first
    /// element is the program name and is discarded; the next two are the
    /// query and the file path, in that order, and any further arguments are
    /// silently ignored. The comparison mode is handed in by the caller, who
    /// derives it from the presence of the `IGNORE_CASE` environment
    /// variable.
    pub fn build(args: &Vec<String>, ignore_case: bool) -> (r: Result<Config, ConfigError>)
        ensures
            args@.len() < 2 ==> r == Err::<Config, ConfigError>(ConfigError::MissingQuery),
            args@.len() == 2 ==> r == Err::<Config, ConfigError>(ConfigError::MissingFilePath),
            args@.len() >= 3 ==> (r matches Ok(c) && c.query_spec() == args@[1]@
                && c.file_path_spec() == args@[2]@ && c.ignore_case_spec() == ignore_case),
    {
        if args.len() < 2 {
            return Err(ConfigError::MissingQuery);
        }
        if args.len() < 3 {
            return Err(ConfigError::MissingFilePath);
        }
        let query = args[1].clone();
        let file_path = args[2].clone();
        Ok(Config { query, file_path, ignore_case })
    }

    /// Read-only access to the query.
    pub fn get_query(&self) -> (r: &str)
        ensures
            r@ == self.query_spec(),
    {
        self.query.as_str()
    }

    /// Read-only access to the file path.
    pub fn get_file_path(&self) -> (r: &str)
        ensures
            r@ == self.file_path_spec(),
    {
        self.file_path.as_str()
    }

    /// Read-only access to the comparison mode.
    pub fn get_ignore_case(&self) -> (r: bool)
        ensures
            r == self.ignore_case_spec(),
    {
        self.ignore_case
    }
}

} // verus!
