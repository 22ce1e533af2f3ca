use minigrep::search;
use minigrep::search_case_insensitive;

#[test]
fn case_sensitive() {
    let query = "duct";
    let contents = "\
Rust:
safe, fast, productive.
Pick three.
Duct tape.";

    assert_eq!(vec!["safe, fast, productive."], search(query, contents));
}

#[test]
fn case_insensitive() {
    let query = "rUsT";
    let contents = "\
Rust:
safe, fast, productive.
Pick three.
Trust me.";

    assert_eq!(
        vec!["Rust:", "Trust me."],
        search_case_insensitive(query, contents)
    );
}

#[test]
fn empty_query_matches_every_line() {
    let contents = "one\ntwo\nthree";
    assert_eq!(vec!["one", "two", "three"], search("", contents));
    assert_eq!(vec!["one", "two", "three"], search_case_insensitive("", contents));
}

#[test]
fn query_equal_to_full_line_matches_it() {
    let contents = "alpha\nbeta\ngamma";
    assert_eq!(vec!["beta"], search("beta", contents));
}

#[test]
fn absent_query_yields_nothing() {
    let contents = "alpha\nbeta\ngamma";
    assert_eq!(Vec::<&str>::new(), search("delta", contents));
    assert_eq!(Vec::<&str>::new(), search_case_insensitive("delta", contents));
}

#[test]
fn query_longer_than_every_line_yields_nothing() {
    let contents = "ab\ncd";
    assert_eq!(Vec::<&str>::new(), search("abcde", contents));
}

#[test]
fn empty_contents_yield_nothing() {
    assert_eq!(Vec::<&str>::new(), search("a", ""));
    assert_eq!(Vec::<&str>::new(), search("", ""));
}

#[test]
fn trailing_newline_opens_no_extra_line() {
    assert_eq!(vec!["last"], search("last", "first\nlast\n"));
    assert_eq!(vec!["first", "last"], search("", "first\nlast\n"));
}

#[test]
fn input_without_terminator_is_one_line() {
    assert_eq!(vec!["only line"], search("line", "only line"));
}

#[test]
fn carriage_return_line_feed_terminates_a_line() {
    assert_eq!(vec!["one", "two"], search("", "one\r\ntwo\r\n"));
    assert_eq!(vec!["one"], search("one", "one\r\ntwo"));
}

#[test]
fn lone_carriage_return_stays_in_the_line() {
    assert_eq!(vec!["a\rb"], search("", "a\rb"));
    assert_eq!(vec!["tail\r"], search("", "tail\r"));
}

#[test]
fn repeated_lines_are_each_reported() {
    let contents = "echo\nother\necho";
    assert_eq!(vec!["echo", "echo"], search("echo", contents));
}

#[test]
fn matches_keep_document_order() {
    let contents = "b first\na second\nb third";
    assert_eq!(vec!["b first", "b third"], search("b", contents));
}

#[test]
fn search_twice_gives_identical_output() {
    let contents = "Rust:\nsafe, fast, productive.\nPick three.";
    let first = search("st", contents);
    let second = search("st", contents);
    assert_eq!(first, second);
    let first_ci = search_case_insensitive("PRO", contents);
    let second_ci = search_case_insensitive("PRO", contents);
    assert_eq!(first_ci, second_ci);
}

#[test]
fn case_insensitive_returns_lines_unfolded() {
    let contents = "TRUST ME\nnothing here";
    assert_eq!(vec!["TRUST ME"], search_case_insensitive("trust", contents));
}

#[test]
fn case_insensitive_folds_the_query() {
    let contents = "trust me";
    assert_eq!(vec!["trust me"], search_case_insensitive("RUST", contents));
}

#[test]
fn case_sensitive_does_not_fold() {
    let contents = "Duct tape.\nduct tape.";
    assert_eq!(vec!["duct tape."], search("duct", contents));
}
