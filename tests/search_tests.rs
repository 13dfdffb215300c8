use minigrep::lines::line_spans;
use minigrep::search::{search, search_case_insensitive};
use minigrep::text::contains_chars;

#[test]
fn case_sensitive() {
    let query = "duct";
    let contents = "\
Rust:
safe, fast, productive.
Pick three.
Duct tape.";

    assert_eq!(vec!["safe, fast, productive."], search(query, contents));
}

#[test]
fn case_insensitive() {
    let query = "rUsT";
    let contents = "\
Rust:
safe, fast, productive.
Pick three.
Trust me.";

    assert_eq!(vec!["Rust:", "Trust me."], search_case_insensitive(query, contents));
}

#[test]
fn empty_query_returns_every_line() {
    let contents = "one\n\ntwo\nthree";
    assert_eq!(vec!["one", "", "two", "three"], search("", contents));
}

#[test]
fn empty_content_has_no_lines() {
    let empty: Vec<&str> = Vec::new();
    assert_eq!(empty, search("", ""));
    assert_eq!(empty, search_case_insensitive("a", ""));
}

#[test]
fn trailing_newline_adds_no_line() {
    assert_eq!(vec!["a", "b"], search("", "a\nb\n"));
}

#[test]
fn last_line_without_newline_is_a_line() {
    assert_eq!(vec!["tail end"], search("end", "head\ntail end"));
}

#[test]
fn carriage_return_before_newline_is_dropped() {
    assert_eq!(vec!["one", "two\r"], search("", "one\r\ntwo\r"));
}

#[test]
fn query_longer_than_every_line_matches_nothing() {
    let empty: Vec<&str> = Vec::new();
    assert_eq!(empty, search("a much longer query", "short\nlines\nhere"));
}

#[test]
fn duplicate_lines_are_all_returned_once_each() {
    assert_eq!(vec!["abab", "abab"], search("ab", "abab\nxy\nabab"));
}

#[test]
fn case_sensitive_search_misses_other_case() {
    let empty: Vec<&str> = Vec::new();
    assert_eq!(empty, search("rust", "RUST\nRust"));
}

#[test]
fn case_insensitive_keeps_line_text() {
    assert_eq!(vec!["RUST", "Rust"], search_case_insensitive("rust", "RUST\nRust\nrest"));
}

#[test]
fn case_insensitive_includes_case_sensitive_result() {
    let contents = "Alpha beta\nALPHA\nalpha\ngamma";
    let exact = search("Alpha", contents);
    let folded = search_case_insensitive("Alpha", contents);
    assert_eq!(vec!["Alpha beta"], exact);
    for line in exact {
        assert!(folded.contains(&line));
    }
    assert_eq!(vec!["Alpha beta", "ALPHA", "alpha"], folded);
}

#[test]
fn non_ascii_lines_are_handled() {
    assert_eq!(vec!["über", "ÜBER alles"], search_case_insensitive("Über", "über\nÜBER alles\nuber"));
    assert_eq!(vec!["ÜBER alles"], search("Ü", "über\nÜBER alles\nuber"));
}

#[test]
fn contains_chars_finds_substrings() {
    let hay: Vec<char> = "productive".chars().collect();
    assert!(contains_chars(&hay, &"duct".chars().collect()));
    assert!(contains_chars(&hay, &Vec::new()));
    assert!(!contains_chars(&hay, &"Duct".chars().collect()));
    assert!(!contains_chars(&"ab".chars().collect(), &"abc".chars().collect()));
}

#[test]
fn line_spans_locate_each_line() {
    let text: Vec<char> = "ab\r\n\ncd".chars().collect();
    assert_eq!(vec![(0usize, 2usize), (4, 4), (5, 7)], line_spans(&text));
}
