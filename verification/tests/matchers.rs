use minigrep::search;
use minigrep::search_case_insensitive;
use minigrep::search_invert;
use minigrep::search_regex;
use minigrep::split_lines;
use minigrep::Pattern;

#[test]
fn case_sensitive() {
    let query = "tan";
    let contents = "hello secctan";

    assert_eq!(vec!["hello secctan"], search(query, contents));
}

#[test]
fn case_insensitive() {
    let query = "Tan";
    let contents = "hello secctan";

    assert_eq!(vec!["hello secctan"], search_case_insensitive(query, contents));
}

#[test]
fn regex() {
    let query = Pattern::new("tan$").unwrap();
    let contents = "hello secctan";

    assert_eq!(vec!["hello secctan"], search_regex(&query, contents));
}

#[test]
fn invert() {
    let query = "tan";
    let contents = "hello secctan";
    let result: Vec<&str> = vec![];

    assert_eq!(result, search_invert(&query, contents));
}

#[test]
fn empty_query_returns_every_line_in_order() {
    let contents = "first\nsecond\nthird";

    assert_eq!(vec!["first", "second", "third"], search("", contents));
}

#[test]
fn search_and_invert_partition_the_lines() {
    let contents = "alpha\nbeta\ngamma\nalbatross";
    let matching = search("al", contents);
    let non_matching = search_invert("al", contents);

    assert_eq!(vec!["alpha", "albatross"], matching);
    assert_eq!(vec!["beta", "gamma"], non_matching);
    assert_eq!(matching.len() + non_matching.len(), split_lines(contents).len());
    for line in &matching {
        assert!(!non_matching.contains(line));
    }
}

#[test]
fn running_a_matcher_twice_gives_identical_output() {
    let contents = "one\ntwo\none two\nthree";

    assert_eq!(search("one", contents), search("one", contents));
    assert_eq!(
        search_case_insensitive("ONE", contents),
        search_case_insensitive("ONE", contents)
    );
    assert_eq!(search_invert("one", contents), search_invert("one", contents));
    let p1 = Pattern::new("^one").unwrap();
    let p2 = Pattern::new("^one").unwrap();
    assert_eq!(search_regex(&p1, contents), search_regex(&p2, contents));
}

#[test]
fn regex_start_anchor_matches_only_line_starts() {
    let pattern = Pattern::new("^he").unwrap();
    let contents = "hello\nsay hello\nhead";

    assert_eq!(vec!["hello", "head"], search_regex(&pattern, contents));
}

#[test]
fn regex_end_anchor_matches_only_line_ends() {
    let pattern = Pattern::new("lo$").unwrap();
    let contents = "hello\nlonely\nsay hello";

    assert_eq!(vec!["hello", "say hello"], search_regex(&pattern, contents));
}

#[test]
fn case_insensitive_is_unaffected_by_uniform_upcasing() {
    let lower_contents = "hello secctan";
    let upper_contents = "HELLO SECCTAN";

    assert_eq!(vec![lower_contents], search_case_insensitive("tan", lower_contents));
    assert_eq!(vec![upper_contents], search_case_insensitive("tan", upper_contents));
    assert_eq!(vec![upper_contents], search_case_insensitive("TAN", upper_contents));
    assert_eq!(vec![lower_contents], search_case_insensitive("TAN", lower_contents));
}

#[test]
fn empty_contents_yield_no_results() {
    let none: Vec<&str> = vec![];

    assert_eq!(none, search("a", ""));
    assert_eq!(none, search("", ""));
    assert_eq!(none, search_invert("a", ""));
    assert_eq!(none, search_case_insensitive("a", ""));
    let pattern = Pattern::new("a").unwrap();
    assert_eq!(none, search_regex(&pattern, ""));
}

#[test]
fn final_line_without_terminator_is_kept() {
    assert_eq!(vec!["a", "b"], split_lines("a\nb"));
    assert_eq!(vec!["a"], split_lines("a\n"));
    assert_eq!(vec!["a", ""], split_lines("a\n\n"));
}

#[test]
fn carriage_return_before_newline_is_stripped() {
    assert_eq!(vec!["a", "b"], split_lines("a\r\nb"));
    assert_eq!(vec!["a\rb"], split_lines("a\rb"));
    assert_eq!(vec!["a\r"], split_lines("a\r"));
}

#[test]
fn duplicate_matching_lines_appear_twice() {
    let contents = "tan line\nother\ntan line";

    assert_eq!(vec!["tan line", "tan line"], search("tan", contents));
}
