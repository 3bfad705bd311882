//! The configuration of one run.

use vstd::prelude::*;

verus! {

/// What a run searches for and how. Built once from the process arguments
/// and never mutated. At most one of the three matcher flags is honored per
/// run: `ignore_case` beats `regex`, which beats `invert_match`; with none of
/// them set, plain substring search is used. `no_messages` only governs
/// whether a failure is reported on standard error.
#[derive(Debug)]
pub struct Config {
    pub pattern: String,
    pub file_path: String,
    pub ignore_case: bool,
    pub regex: bool,
    pub no_messages: bool,
    pub invert_match: bool,
}

} // verus!
