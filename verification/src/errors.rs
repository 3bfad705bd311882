//! The error taxonomy of a run.

use vstd::prelude::*;

verus! {

/// Why a run failed. Both variants carry a human-readable detail; neither is
/// ever retried or recovered from.
#[derive(Debug)]
pub enum SearchError {
    /// The input file could not be opened or read.
    IoError(String),
    /// The pattern was flagged as a regular expression and failed to compile.
    PatternError(String),
}

impl SearchError {
    /// The human-readable detail carried by this error.
    pub fn message(&self) -> (r: String)
        ensures
            r@ == match *self {
                SearchError::IoError(m) => m@,
                SearchError::PatternError(m) => m@,
            },
    {
        match self {
            SearchError::IoError(m) => m.clone(),
            SearchError::PatternError(m) => m.clone(),
        }
    }
}

} // verus!
