//! The matcher set: each matcher takes a query and a body of text and
//! returns the lines of the text satisfying its predicate, eagerly, in
//! original order, duplicates kept.

use vstd::prelude::*;
use vstd::string::StrSliceExecFns;

use crate::lines::spec_lines;
use crate::lines::split_lines;
use crate::pattern::Pattern;
use crate::pattern::regex_match;

verus! {

/// `query` occurs in `line` as a contiguous run of characters. An empty
/// query occurs in every line.
pub open spec fn is_match(query: Seq<char>, line: Seq<char>) -> bool {
    exists|i: int|
        0 <= i <= line.len() - query.len() && #[trigger] line.subrange(i, i + query.len() as int)
            == query
}

/// The lines among `lines` in which `query` occurs, in order.
pub open spec fn matching_lines(query: Seq<char>, lines: Seq<Seq<char>>) -> Seq<Seq<char>> {
    lines.filter(|l: Seq<char>| is_match(query, l))
}

/// The lines among `lines` in which `query` does not occur, in order.
pub open spec fn non_matching_lines(query: Seq<char>, lines: Seq<Seq<char>>) -> Seq<Seq<char>> {
    lines.filter(|l: Seq<char>| !is_match(query, l))
}

/// The result of Unicode-lowercasing a text, named but not written out: it
/// is whatever `str::to_lowercase` returns, a function of the characters
/// alone.
pub uninterp spec fn lower_of(s: Seq<char>) -> Seq<char>;

/// The lines among `lines` whose lowercase form contains the (already
/// folded) query `query_folded`, in order.
pub open spec fn ci_matching_lines(query_folded: Seq<char>, lines: Seq<Seq<char>>) -> Seq<
    Seq<char>,
> {
    lines.filter(|l: Seq<char>| is_match(query_folded, lower_of(l)))
}

/// The lines among `lines` that the regex compiled from `pattern` matches,
/// in order.
pub open spec fn regex_matching_lines(pattern: Seq<char>, lines: Seq<Seq<char>>) -> Seq<
    Seq<char>,
> {
    lines.filter(|l: Seq<char>| regex_match(pattern, l))
}

/// What `search` returns: the lines of `contents` containing `query`.
pub open spec fn search_spec(query: Seq<char>, contents: Seq<char>) -> Seq<Seq<char>> {
    matching_lines(query, spec_lines(contents))
}

/// What `search_invert` returns: the lines of `contents` not containing
/// `query`.
pub open spec fn search_invert_spec(query: Seq<char>, contents: Seq<char>) -> Seq<Seq<char>> {
    non_matching_lines(query, spec_lines(contents))
}

/// What `search_case_insensitive` returns: the lines of `contents` whose
/// lowercase form contains the lowercase form of `query`.
pub open spec fn search_case_insensitive_spec(query: Seq<char>, contents: Seq<char>) -> Seq<
    Seq<char>,
> {
    ci_matching_lines(lower_of(query), spec_lines(contents))
}

/// What `search_regex` returns: the lines of `contents` that the regex
/// compiled from `pattern` matches.
pub open spec fn search_regex_spec(pattern: Seq<char>, contents: Seq<char>) -> Seq<Seq<char>> {
    regex_matching_lines(pattern, spec_lines(contents))
}

/// Relies on `str::to_lowercase`: the result is a function of the characters
/// alone.
#[verifier::external_body]
fn to_lowercase_str(s: &str) -> (r: String)
    ensures
        r@ == lower_of(s@),
{
    s.to_lowercase()
}

/// `needle` occurs in `hay` starting at char position `at`.
fn matches_at(hay: &str, needle: &str, at: usize) -> (r: bool)
    requires
        at + needle@.len() <= hay@.len(),
    ensures
        r == (hay@.subrange(at as int, at + needle@.len() as int) == needle@),
{
    let n = hay.unicode_len();
    let m = needle.unicode_len();
    let mut k: usize = 0;
    while k < m
        invariant
            k <= m,
            m == needle@.len(),
            n == hay@.len(),
            at + m <= n,
            forall|x: int| 0 <= x < k ==> hay@[at + x] == needle@[x],
        decreases m - k,
    {
        if hay.get_char(at + k) != needle.get_char(k) {
            assert(hay@.subrange(at as int, at + m as int)[k as int] != needle@[k as int]);
            return false;
        }
        k = k + 1;
    }
    proof {
        assert(hay@.subrange(at as int, at + m as int) =~= needle@);
    }
    true
}

/// `needle` occurs somewhere in `hay`; an empty needle always occurs.
pub fn contains_substr(hay: &str, needle: &str) -> (r: bool)
    ensures
        r == is_match(needle@, hay@),
{
    let n = hay.unicode_len();
    let m = needle.unicode_len();
    if m == 0 {
        proof {
            assert(hay@.subrange(0, 0 + needle@.len() as int) =~= needle@);
            assert(is_match(needle@, hay@));
        }
        return true;
    }
    if m > n {
        proof {
            if is_match(needle@, hay@) {
                let w = choose|i: int|
                    0 <= i <= hay@.len() - needle@.len() && #[trigger] hay@.subrange(
                        i,
                        i + needle@.len() as int,
                    ) == needle@;
                assert(false);
            }
        }
        return false;
    }
    let limit = n - m;
    let mut i: usize = 0;
    while i <= limit
        invariant
            i <= limit + 1,
            limit == n - m,
            0 < m <= n,
            n == hay@.len(),
            m == needle@.len(),
            forall|x: int| 0 <= x < i ==> #[trigger] hay@.subrange(x, x + m as int) != needle@,
        decreases limit - i + 1,
    {
        if matches_at(hay, needle, i) {
            proof {
                assert(0 <= i as int <= hay@.len() - needle@.len() && hay@.subrange(
                    i as int,
                    i as int + needle@.len() as int,
                ) == needle@);
            }
            return true;
        }
        i = i + 1;
    }
    proof {
        if is_match(needle@, hay@) {
            let w = choose|x: int|
                0 <= x <= hay@.len() - needle@.len() && #[trigger] hay@.subrange(
                    x,
                    x + needle@.len() as int,
                ) == needle@;
            assert(hay@.subrange(w, w + m as int) != needle@);
        }
    }
    false
}

proof fn lemma_matching_lines_push(q: Seq<char>, s: Seq<Seq<char>>, x: Seq<char>)
    ensures
        matching_lines(q, s.push(x)) == if is_match(q, x) {
            matching_lines(q, s).push(x)
        } else {
            matching_lines(q, s)
        },
{
    reveal(Seq::filter);
    assert(s.push(x).drop_last() =~= s);
}

proof fn lemma_non_matching_lines_push(q: Seq<char>, s: Seq<Seq<char>>, x: Seq<char>)
    ensures
        non_matching_lines(q, s.push(x)) == if !is_match(q, x) {
            non_matching_lines(q, s).push(x)
        } else {
            non_matching_lines(q, s)
        },
{
    reveal(Seq::filter);
    assert(s.push(x).drop_last() =~= s);
}

proof fn lemma_ci_matching_lines_push(qf: Seq<char>, s: Seq<Seq<char>>, x: Seq<char>)
    ensures
        ci_matching_lines(qf, s.push(x)) == if is_match(qf, lower_of(x)) {
            ci_matching_lines(qf, s).push(x)
        } else {
            ci_matching_lines(qf, s)
        },
{
    reveal(Seq::filter);
    assert(s.push(x).drop_last() =~= s);
}

proof fn lemma_regex_matching_lines_push(p: Seq<char>, s: Seq<Seq<char>>, x: Seq<char>)
    ensures
        regex_matching_lines(p, s.push(x)) == if regex_match(p, x) {
            regex_matching_lines(p, s).push(x)
        } else {
            regex_matching_lines(p, s)
        },
{
    reveal(Seq::filter);
    assert(s.push(x).drop_last() =~= s);
}

/// Every line of `contents` that contains `query` as an exact, case-sensitive
/// substring, in original order. An empty query matches every line.
pub fn search<'a>(query: &str, contents: &'a str) -> (r: Vec<&'a str>)
    ensures
        r.deep_view() == search_spec(query@, contents@),
{
    let lines = split_lines(contents);
    let mut results: Vec<&'a str> = Vec::new();
    let mut i: usize = 0;
    while i < lines.len()
        invariant
            i <= lines.len(),
            lines.deep_view() == spec_lines(contents@),
            results.deep_view() == matching_lines(
                query@,
                lines.deep_view().subrange(0, i as int),
            ),
        decreases lines.len() - i,
    {
        let line: &'a str = lines[i];
        let ghost prev = results.deep_view();
        let ghost pre = lines.deep_view().subrange(0, i as int);
        assert(line@ == lines.deep_view()[i as int]);
        if contains_substr(line, query) {
            results.push(line);
            proof {
                assert(results.deep_view() =~= prev.push(line@));
            }
        }
        proof {
            assert(lines.deep_view().subrange(0, i + 1) =~= pre.push(line@));
            lemma_matching_lines_push(query@, pre, line@);
        }
        i = i + 1;
    }
    proof {
        assert(lines.deep_view().subrange(0, lines.len() as int) =~= lines.deep_view());
    }
    results
}

/// Every line of `contents` that does not contain `query`, in original order.
/// The complement of `search`.
pub fn search_invert<'a>(pattern: &str, contents: &'a str) -> (r: Vec<&'a str>)
    ensures
        r.deep_view() == search_invert_spec(pattern@, contents@),
{
    let lines = split_lines(contents);
    let mut results: Vec<&'a str> = Vec::new();
    let mut i: usize = 0;
    while i < lines.len()
        invariant
            i <= lines.len(),
            lines.deep_view() == spec_lines(contents@),
            results.deep_view() == non_matching_lines(
                pattern@,
                lines.deep_view().subrange(0, i as int),
            ),
        decreases lines.len() - i,
    {
        let line: &'a str = lines[i];
        let ghost prev = results.deep_view();
        let ghost pre = lines.deep_view().subrange(0, i as int);
        assert(line@ == lines.deep_view()[i as int]);
        if !contains_substr(line, pattern) {
            results.push(line);
            proof {
                assert(results.deep_view() =~= prev.push(line@));
            }
        }
        proof {
            assert(lines.deep_view().subrange(0, i + 1) =~= pre.push(line@));
            lemma_non_matching_lines_push(pattern@, pre, line@);
        }
        i = i + 1;
    }
    proof {
        assert(lines.deep_view().subrange(0, lines.len() as int) =~= lines.deep_view());
    }
    results
}

/// Every line of `contents` whose lowercase form contains the lowercase form
/// of `query`, in original (unfolded) order and form.
pub fn search_case_insensitive<'a>(query: &str, contents: &'a str) -> (r: Vec<&'a str>)
    ensures
        r.deep_view() == search_case_insensitive_spec(query@, contents@),
{
    let folded_query = to_lowercase_str(query);
    let lines = split_lines(contents);
    let mut results: Vec<&'a str> = Vec::new();
    let mut i: usize = 0;
    while i < lines.len()
        invariant
            i <= lines.len(),
            folded_query@ == lower_of(query@),
            lines.deep_view() == spec_lines(contents@),
            results.deep_view() == ci_matching_lines(
                lower_of(query@),
                lines.deep_view().subrange(0, i as int),
            ),
        decreases lines.len() - i,
    {
        let line: &'a str = lines[i];
        let ghost prev = results.deep_view();
        let ghost pre = lines.deep_view().subrange(0, i as int);
        assert(line@ == lines.deep_view()[i as int]);
        let folded_line = to_lowercase_str(line);
        if contains_substr(folded_line.as_str(), folded_query.as_str()) {
            results.push(line);
            proof {
                assert(results.deep_view() =~= prev.push(line@));
            }
        }
        proof {
            assert(lines.deep_view().subrange(0, i + 1) =~= pre.push(line@));
            lemma_ci_matching_lines_push(lower_of(query@), pre, line@);
        }
        i = i + 1;
    }
    proof {
        assert(lines.deep_view().subrange(0, lines.len() as int) =~= lines.deep_view());
    }
    results
}

/// Every line of `contents` that the precompiled `pattern` matches anywhere
/// within it, in original order.
pub fn search_regex<'a>(pattern: &Pattern, contents: &'a str) -> (r: Vec<&'a str>)
    ensures
        r.deep_view() == search_regex_spec(pattern@, contents@),
{
    let lines = split_lines(contents);
    let mut results: Vec<&'a str> = Vec::new();
    let mut i: usize = 0;
    while i < lines.len()
        invariant
            i <= lines.len(),
            lines.deep_view() == spec_lines(contents@),
            results.deep_view() == regex_matching_lines(
                pattern@,
                lines.deep_view().subrange(0, i as int),
            ),
        decreases lines.len() - i,
    {
        let line: &'a str = lines[i];
        let ghost prev = results.deep_view();
        let ghost pre = lines.deep_view().subrange(0, i as int);
        assert(line@ == lines.deep_view()[i as int]);
        if pattern.is_match(line) {
            results.push(line);
            proof {
                assert(results.deep_view() =~= prev.push(line@));
            }
        }
        proof {
            assert(lines.deep_view().subrange(0, i + 1) =~= pre.push(line@));
            lemma_regex_matching_lines_push(pattern@, pre, line@);
        }
        i = i + 1;
    }
    proof {
        assert(lines.deep_view().subrange(0, lines.len() as int) =~= lines.deep_view());
    }
    results
}

} // verus!

