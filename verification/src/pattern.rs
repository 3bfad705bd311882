//! Compiled regular expressions.
//!
//! The regex engine itself is the `regex` crate's; this module holds the
//! trusted boundary around it. Compilation success and the match relation are
//! both functions of the pattern and haystack texts alone, so each is given a
//! name that the rest of the library's contracts speak of.

use vstd::prelude::*;

use crate::errors::SearchError;

verus! {

#[verifier::external_type_specification]
#[verifier::external_body]
pub struct ExRegex(regex::Regex);

#[verifier::external_type_specification]
#[verifier::external_body]
pub struct ExRegexError(regex::Error);

/// Whether `regex::Regex::new` accepts `pattern`: compilation succeeds or
/// fails on the pattern text alone.
pub uninterp spec fn regex_ok(pattern: Seq<char>) -> bool;

/// What `regex::Regex::is_match` returns for a regex compiled from `pattern`,
/// applied to the haystack `text`: true when the regex matches anywhere in
/// `text`. A function of the two texts alone.
pub uninterp spec fn regex_match(pattern: Seq<char>, text: Seq<char>) -> bool;

/// A compiled regular expression, paired with the pattern text it was
/// compiled from. The fields are private and values are only built by
/// `Pattern::new`, so the regex is always the one compiled from the source
/// text that the view exposes.
pub struct Pattern {
    re: regex::Regex,
    source: String,
}

impl View for Pattern {
    type V = Seq<char>;

    closed spec fn view(&self) -> Seq<char> {
        self.source@
    }
}

/// Relies on `regex::Regex::new`: whether it returns `Ok` is a function of
/// the pattern text alone, and the regex it returns is the one compiled from
/// that text.
#[verifier::external_body]
fn regex_compile(pattern: &str) -> (r: Result<Pattern, regex::Error>)
    ensures
        r is Ok <==> regex_ok(pattern@),
        r is Ok ==> r->Ok_0@ == pattern@,
{
    match regex::Regex::new(pattern) {
        Ok(re) => Ok(Pattern { re, source: pattern.to_owned() }),
        Err(e) => Err(e),
    }
}

/// Relies on `regex::Regex::is_match`: the result is a function of the
/// pattern the regex was compiled from and of the haystack text alone.
#[verifier::external_body]
fn regex_is_match(p: &Pattern, text: &str) -> (r: bool)
    ensures
        r == regex_match(p@, text@),
{
    p.re.is_match(text)
}

/// Relies on `regex::Error`'s `Display` impl: renders the compile failure as
/// text. Nothing is claimed of the rendering.
#[verifier::external_body]
fn regex_error_text(e: &regex::Error) -> String {
    e.to_string()
}

impl Pattern {
    /// Compiles `pattern`. Fails with `PatternError` exactly when `pattern`
    /// is not a valid regular expression.
    pub fn new(pattern: &str) -> (r: Result<Pattern, SearchError>)
        ensures
            r is Ok <==> regex_ok(pattern@),
            r is Ok ==> r->Ok_0@ == pattern@,
            r is Err ==> r->Err_0 is PatternError,
    {
        match regex_compile(pattern) {
            Ok(p) => Ok(p),
            Err(e) => Err(SearchError::PatternError(regex_error_text(&e))),
        }
    }

    /// Whether this pattern matches anywhere in `text`.
    pub fn is_match(&self, text: &str) -> (r: bool)
        ensures
            r == regex_match(self@, text@),
    {
        regex_is_match(self, text)
    }
}

} // verus!
