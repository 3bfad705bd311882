//! A small line-oriented text search library.
//!
//! Given a query and a body of text, each matcher returns the lines of the
//! text that satisfy a predicate: exact substring containment (`search`),
//! case-insensitive containment (`search_case_insensitive`), a regular
//! expression match (`search_regex`), or the complement of containment
//! (`search_invert`). Results are borrowed slices of the input text, in
//! original order, duplicates kept. `run_on_contents` selects exactly one
//! matcher from a `Config`'s flags and applies it.

pub mod config;
pub mod dispatch;
pub mod errors;
pub mod laws;
pub mod lines;
pub mod matchers;
pub mod pattern;

pub use config::Config;
pub use dispatch::run_on_contents;
pub use errors::SearchError;
pub use lines::split_lines;
pub use matchers::search;
pub use matchers::search_case_insensitive;
pub use matchers::search_invert;
pub use matchers::search_regex;
pub use pattern::Pattern;
