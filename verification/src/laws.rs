//! Laws of the matcher set, stated and proved over the specification
//! functions that the matchers' contracts use.

use vstd::prelude::*;
use vstd::seq_lib::lemma_seq_contains_after_push;

use crate::lines::spec_lines;
use crate::matchers::is_match;
use crate::matchers::matching_lines;
use crate::matchers::non_matching_lines;
use crate::matchers::search_case_insensitive_spec;
use crate::matchers::search_invert_spec;
use crate::matchers::search_regex_spec;
use crate::matchers::search_spec;

verus! {

proof fn lemma_partition_rec(q: Seq<char>, lines: Seq<Seq<char>>)
    ensures
        matching_lines(q, lines).len() + non_matching_lines(q, lines).len() == lines.len(),
        forall|l: Seq<char>|
            #[trigger] matching_lines(q, lines).contains(l) <==> lines.contains(l) && is_match(
                q,
                l,
            ),
        forall|l: Seq<char>|
            #[trigger] non_matching_lines(q, lines).contains(l) <==> lines.contains(l)
                && !is_match(q, l),
    decreases lines.len(),
{
    reveal(Seq::filter);
    if lines.len() == 0 {
    } else {
        let prefix = lines.drop_last();
        let last = lines.last();
        lemma_partition_rec(q, prefix);
        assert(matching_lines(q, lines) == if is_match(q, last) {
            matching_lines(q, prefix).push(last)
        } else {
            matching_lines(q, prefix)
        });
        assert(non_matching_lines(q, lines) == if !is_match(q, last) {
            non_matching_lines(q, prefix).push(last)
        } else {
            non_matching_lines(q, prefix)
        });
        assert(lines =~= prefix.push(last));
        assert forall|l: Seq<char>|
            #[trigger] matching_lines(q, lines).contains(l) <==> lines.contains(l) && is_match(
                q,
                l,
            ) by {
            lemma_seq_contains_after_push(prefix, last, l);
            if is_match(q, last) {
                lemma_seq_contains_after_push(matching_lines(q, prefix), last, l);
            }
        }
        assert forall|l: Seq<char>|
            #[trigger] non_matching_lines(q, lines).contains(l) <==> lines.contains(l)
                && !is_match(q, l) by {
            lemma_seq_contains_after_push(prefix, last, l);
            if !is_match(q, last) {
                lemma_seq_contains_after_push(non_matching_lines(q, prefix), last, l);
            }
        }
    }
}

/// Any line of the text in which the query occurs appears in the result of
/// `search`.
pub proof fn lemma_search_finds_matching_line(q: Seq<char>, t: Seq<char>, i: int)
    requires
        0 <= i < spec_lines(t).len(),
        is_match(q, spec_lines(t)[i]),
    ensures
        search_spec(q, t).contains(spec_lines(t)[i]),
{
    lemma_partition_rec(q, spec_lines(t));
    assert(spec_lines(t).contains(spec_lines(t)[i]));
}

/// For a fixed query, `search` and `search_invert` partition the lines of
/// the text into two disjoint sets: their lengths account for every line,
/// each result holds only lines of the text, a line of the text stands in
/// `search`'s result exactly when the query occurs in it and in
/// `search_invert`'s exactly when it does not, and no line stands in both.
pub proof fn lemma_search_invert_partition(q: Seq<char>, t: Seq<char>)
    ensures
        search_spec(q, t).len() + search_invert_spec(q, t).len() == spec_lines(t).len(),
        forall|l: Seq<char>|
            #[trigger] search_spec(q, t).contains(l) <==> spec_lines(t).contains(l) && is_match(
                q,
                l,
            ),
        forall|l: Seq<char>|
            #[trigger] search_invert_spec(q, t).contains(l) <==> spec_lines(t).contains(l)
                && !is_match(q, l),
        forall|l: Seq<char>|
            !(#[trigger] search_spec(q, t).contains(l) && search_invert_spec(q, t).contains(l)),
{
    lemma_partition_rec(q, spec_lines(t));
}

/// Running the same matcher twice on the same inputs yields identical
/// ordered output: each matcher's contract pins its result to a function of
/// the inputs alone, so any two results of one matcher on one input agree.
pub proof fn lemma_matchers_deterministic(
    q: Seq<char>,
    t: Seq<char>,
    a: Seq<Seq<char>>,
    b: Seq<Seq<char>>,
)
    ensures
        a == search_spec(q, t) && b == search_spec(q, t) ==> a == b,
        a == search_case_insensitive_spec(q, t) && b == search_case_insensitive_spec(q, t) ==> a
            == b,
        a == search_regex_spec(q, t) && b == search_regex_spec(q, t) ==> a == b,
        a == search_invert_spec(q, t) && b == search_invert_spec(q, t) ==> a == b,
{
}

proof fn lemma_matching_all(q: Seq<char>, lines: Seq<Seq<char>>)
    requires
        forall|i: int| 0 <= i < lines.len() ==> is_match(q, #[trigger] lines[i]),
    ensures
        matching_lines(q, lines) == lines,
    decreases lines.len(),
{
    reveal(Seq::filter);
    if lines.len() == 0 {
        assert(matching_lines(q, lines) =~= lines);
    } else {
        let prefix = lines.drop_last();
        assert forall|i: int| 0 <= i < prefix.len() implies is_match(q, #[trigger] prefix[i]) by {
            assert(prefix[i] == lines[i]);
        }
        lemma_matching_all(q, prefix);
        assert(is_match(q, lines[lines.len() - 1]));
        assert(matching_lines(q, lines) =~= lines);
    }
}

/// With an empty query, `search` returns every line of the text, unchanged
/// and in order: the empty text occurs in every line.
pub proof fn lemma_empty_query_returns_all_lines(t: Seq<char>)
    ensures
        search_spec(Seq::<char>::empty(), t) == spec_lines(t),
{
    let q = Seq::<char>::empty();
    assert forall|i: int| 0 <= i < spec_lines(t).len() implies is_match(
        q,
        #[trigger] spec_lines(t)[i],
    ) by {
        let l = spec_lines(t)[i];
        assert(l.subrange(0, 0 + q.len() as int) =~= q);
        assert(is_match(q, l));
    }
    lemma_matching_all(q, spec_lines(t));
}

/// Case-insensitive search sees only the folded query: two queries with the
/// same lowercase form select the same lines of any text.
pub proof fn lemma_ci_depends_on_folded_query(q1: Seq<char>, q2: Seq<char>, t: Seq<char>)
    requires
        crate::matchers::lower_of(q1) == crate::matchers::lower_of(q2),
    ensures
        search_case_insensitive_spec(q1, t) == search_case_insensitive_spec(q2, t),
{
}

} // verus!
