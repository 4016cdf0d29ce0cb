//! A small line-oriented text-search library.
//!
//! Given a query string and the full text of a file, the library returns the
//! lines of the text that contain the query, either case-sensitively or under
//! ASCII case folding, optionally passing the matching lines through a
//! highlighting step before they are printed by the caller.

pub mod colorize;
pub mod config;
pub mod lines;
pub mod replace;
pub mod runner;
pub mod search;
pub mod text;

pub use crate::colorize::colorize_query;
pub use crate::config::Config;
pub use crate::config::ConfigError;
pub use crate::runner::run;
pub use crate::search::search;
pub use crate::search::search_case_insensitive;
