//! Selecting and applying exactly one matcher for a run.

use vstd::prelude::*;

use crate::config::Config;
use crate::errors::SearchError;
use crate::matchers::search;
use crate::matchers::search_case_insensitive;
use crate::matchers::search_case_insensitive_spec;
use crate::matchers::search_invert;
use crate::matchers::search_invert_spec;
use crate::matchers::search_regex;
use crate::matchers::search_regex_spec;
use crate::matchers::search_spec;
use crate::pattern::Pattern;
use crate::pattern::regex_ok;

verus! {

/// Applies to `contents` the one matcher that `config`'s flags select, in
/// the fixed priority order: `ignore_case` first, then `regex`, then
/// `invert_match`, and plain substring search when none is set. Fails, with
/// `PatternError` and before any scan, exactly when the regex matcher is
/// selected and `config.pattern` does not compile.
pub fn run_on_contents<'a>(config: &Config, contents: &'a str) -> (r: Result<
    Vec<&'a str>,
    SearchError,
>)
    ensures
        config.ignore_case ==> r is Ok && r->Ok_0.deep_view() == search_case_insensitive_spec(
            config.pattern@,
            contents@,
        ),
        !config.ignore_case && config.regex ==> (r is Ok <==> regex_ok(config.pattern@)),
        !config.ignore_case && config.regex && r is Ok ==> r->Ok_0.deep_view()
            == search_regex_spec(config.pattern@, contents@),
        !config.ignore_case && config.regex && r is Err ==> r->Err_0 is PatternError,
        !config.ignore_case && !config.regex && config.invert_match ==> r is Ok
            && r->Ok_0.deep_view() == search_invert_spec(config.pattern@, contents@),
        !config.ignore_case && !config.regex && !config.invert_match ==> r is Ok
            && r->Ok_0.deep_view() == search_spec(config.pattern@, contents@),
{
    if config.ignore_case {
        Ok(search_case_insensitive(config.pattern.as_str(), contents))
    } else if config.regex {
        match Pattern::new(config.pattern.as_str()) {
            Ok(p) => Ok(search_regex(&p, contents)),
            Err(e) => Err(e),
        }
    } else if config.invert_match {
        Ok(search_invert(config.pattern.as_str(), contents))
    } else {
        Ok(search(config.pattern.as_str(), contents))
    }
}

} // verus!
