use minigrep::run_on_contents;
use minigrep::Config;
use minigrep::Pattern;
use minigrep::SearchError;

fn config(pattern: &str) -> Config {
    Config {
        pattern: String::from(pattern),
        file_path: String::from("poem.txt"),
        ignore_case: false,
        regex: false,
        no_messages: false,
        invert_match: false,
    }
}

#[test]
fn plain_search_is_the_default() {
    let cfg = config("tan");
    let lines = run_on_contents(&cfg, "hello secctan\nother").unwrap();

    assert_eq!(vec!["hello secctan"], lines);
}

#[test]
fn ignore_case_beats_every_other_flag() {
    let mut cfg = config("TAN");
    cfg.ignore_case = true;
    cfg.regex = true;
    cfg.invert_match = true;
    let lines = run_on_contents(&cfg, "hello secctan\nother").unwrap();

    assert_eq!(vec!["hello secctan"], lines);
}

#[test]
fn regex_beats_invert_match() {
    let mut cfg = config("tan$");
    cfg.regex = true;
    cfg.invert_match = true;
    let lines = run_on_contents(&cfg, "hello secctan\ntan first").unwrap();

    assert_eq!(vec!["hello secctan"], lines);
}

#[test]
fn invert_match_selects_non_matching_lines() {
    let mut cfg = config("tan");
    cfg.invert_match = true;
    let lines = run_on_contents(&cfg, "hello secctan\nother").unwrap();

    assert_eq!(vec!["other"], lines);
}

#[test]
fn unbalanced_regex_pattern_is_a_pattern_error() {
    let mut cfg = config("(");
    cfg.regex = true;
    let result = run_on_contents(&cfg, "hello secctan");

    assert!(matches!(result, Err(SearchError::PatternError(_))));
}

#[test]
fn invalid_pattern_without_regex_flag_is_searched_literally() {
    let cfg = config("(");
    let lines = run_on_contents(&cfg, "open ( paren\nnone").unwrap();

    assert_eq!(vec!["open ( paren"], lines);
}

#[test]
fn pattern_compilation_reports_failure_only_for_bad_patterns() {
    assert!(Pattern::new("tan$").is_ok());
    assert!(Pattern::new("(").is_err());
}

#[test]
fn pattern_error_carries_a_message() {
    let err = match Pattern::new("(") {
        Err(e) => e,
        Ok(_) => panic!("an unbalanced pattern must not compile"),
    };
    let message = err.message();

    assert!(!message.is_empty());
}

#[test]
fn io_error_carries_its_detail() {
    let err = SearchError::IoError(String::from("no such file"));

    assert_eq!("no such file", err.message());
}

#[test]
fn no_messages_flag_does_not_change_the_result() {
    let mut loud = config("tan");
    let mut quiet = config("tan");
    quiet.no_messages = true;
    loud.regex = true;
    quiet.regex = true;

    let contents = "hello secctan\ntangent";
    assert_eq!(
        run_on_contents(&loud, contents).unwrap(),
        run_on_contents(&quiet, contents).unwrap()
    );
}
