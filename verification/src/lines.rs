//! Splitting a text into its lines.
//!
//! A line is a maximal run of characters between line terminators. A
//! terminator is a `'\n'`, and a `'\r'` standing directly before the `'\n'`
//! belongs to the terminator and is stripped. Text after the last terminator
//! is a final, unterminated line; an empty text has no lines at all.

use vstd::prelude::*;
use vstd::string::StrSliceExecFns;

verus! {

/// The position of the first `'\n'` in `t` at or after `pos`, or `t.len()`
/// when no newline follows.
pub open spec fn first_nl_from(t: Seq<char>, pos: int) -> int
    decreases t.len() - pos,
{
    if pos < 0 || pos >= t.len() {
        t.len() as int
    } else if t[pos] == '\n' {
        pos
    } else {
        first_nl_from(t, pos + 1)
    }
}

pub proof fn lemma_first_nl_from_bounds(t: Seq<char>, pos: int)
    requires
        0 <= pos <= t.len(),
    ensures
        pos <= first_nl_from(t, pos) <= t.len(),
        first_nl_from(t, pos) < t.len() ==> t[first_nl_from(t, pos)] == '\n',
        forall|k: int| pos <= k < first_nl_from(t, pos) ==> t[k] != '\n',
    decreases t.len() - pos,
{
    if pos < t.len() && t[pos] != '\n' {
        lemma_first_nl_from_bounds(t, pos + 1);
    }
}

/// The line of `t` that starts at `pos`: the text up to the next newline,
/// with a carriage return stripped when it stands directly before that
/// newline. A `'\r'` not followed by a `'\n'` is ordinary text.
pub open spec fn line_at(t: Seq<char>, pos: int) -> Seq<char> {
    let j = first_nl_from(t, pos);
    if j < t.len() && pos < j && t[j - 1] == '\r' {
        t.subrange(pos, j - 1)
    } else {
        t.subrange(pos, j)
    }
}

/// The lines of `t` from `pos` on: one line per newline reached, plus a
/// final unterminated line when text remains after the last newline.
pub open spec fn spec_lines_from(t: Seq<char>, pos: int) -> Seq<Seq<char>>
    decreases t.len() - pos,
    via spec_lines_from_decreases
{
    if pos < 0 || pos >= t.len() {
        Seq::empty()
    } else {
        let j = first_nl_from(t, pos);
        seq![line_at(t, pos)] + (if j < t.len() {
            spec_lines_from(t, j + 1)
        } else {
            Seq::empty()
        })
    }
}

#[via_fn]
proof fn spec_lines_from_decreases(t: Seq<char>, pos: int) {
    if 0 <= pos < t.len() {
        lemma_first_nl_from_bounds(t, pos);
    }
}

/// The lines of `t`, in order.
pub open spec fn spec_lines(t: Seq<char>) -> Seq<Seq<char>> {
    spec_lines_from(t, 0)
}

/// The char position of the first `'\n'` in `s` at or after `from`, or the
/// char length of `s` when no newline follows.
pub fn find_newline(s: &str, from: usize) -> (j: usize)
    requires
        from <= s@.len(),
    ensures
        j == first_nl_from(s@, from as int),
        from <= j <= s@.len(),
{
    let n = s.unicode_len();
    let mut j: usize = from;
    while j < n
        invariant
            from <= j <= n,
            n == s@.len(),
            first_nl_from(s@, from as int) == first_nl_from(s@, j as int),
        decreases n - j,
    {
        if s.get_char(j) == '\n' {
            return j;
        }
        j = j + 1;
    }
    j
}

/// The lines of `contents`, as borrowed slices in original order.
pub fn split_lines<'a>(contents: &'a str) -> (r: Vec<&'a str>)
    ensures
        r.deep_view() == spec_lines(contents@),
{
    let ghost t = contents@;
    let n = contents.unicode_len();
    let mut out: Vec<&'a str> = Vec::new();
    let mut pos: usize = 0;
    while pos < n
        invariant
            pos <= n,
            n == t.len(),
            t == contents@,
            out.deep_view() + spec_lines_from(t, pos as int) == spec_lines(t),
        decreases n - pos,
    {
        let j = find_newline(contents, pos);
        proof {
            lemma_first_nl_from_bounds(t, pos as int);
        }
        let end: usize = if j < n && pos < j && contents.get_char(j - 1) == '\r' {
            j - 1
        } else {
            j
        };
        let line: &'a str = contents.substring_char(pos, end);
        let ghost prev = out.deep_view();
        let ghost rest = spec_lines_from(t, pos as int).drop_first();
        proof {
            assert(line@ =~= line_at(t, pos as int));
            assert(spec_lines_from(t, pos as int) =~= seq![line_at(t, pos as int)] + rest);
        }
        out.push(line);
        pos = if j < n { j + 1 } else { n };
        proof {
            assert(out.deep_view() =~= prev.push(line@));
            assert(spec_lines_from(t, pos as int) =~= rest);
            assert(prev.push(line@) + rest =~= prev + (seq![line@] + rest));
            assert(out.deep_view() + spec_lines_from(t, pos as int) =~= spec_lines(t));
        }
    }
    proof {
        assert(spec_lines_from(t, pos as int) =~= Seq::<Seq<char>>::empty());
        assert(out.deep_view() + spec_lines_from(t, pos as int) =~= out.deep_view());
    }
    out
}

} // verus!
