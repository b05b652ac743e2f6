use grep_rs::matcher::compile;
use grep_rs::matcher::PatternError;
use grep_rs::scanner::scan;
use grep_rs::scanner::split_lines;
use grep_rs::scanner::ScanOptions;

fn plain_opts() -> ScanOptions {
    ScanOptions { show_line_number: false, highlight_matches: false, max_matches: 0 }
}

#[test]
fn matches_lines_one_and_three() {
    let m = compile("foo", false).unwrap();
    let r = scan("foo\nbar\nfoobar\n", &m, "f.txt", &plain_opts());
    assert_eq!(r.len(), 2);
    assert_eq!(r[0].line_index, 1);
    assert_eq!(r[0].raw_text, "foo");
    assert_eq!(r[1].line_index, 3);
    assert_eq!(r[1].raw_text, "foobar");
}

#[test]
fn case_insensitive_matching_ignores_case_of_haystack() {
    let m = compile("foo", true).unwrap();
    let r = scan("FOO\nfoo\nFoO\nbar\n", &m, "f.txt", &plain_opts());
    assert_eq!(r.len(), 3);
    assert_eq!(r[0].line_index, 1);
    assert_eq!(r[1].line_index, 2);
    assert_eq!(r[2].line_index, 3);
}

#[test]
fn case_insensitive_matching_ignores_case_of_pattern() {
    let upper = compile("FoO", true).unwrap();
    let lower = compile("fOo", true).unwrap();
    let content = "foo\nFOO\nbar\nfOO\n";
    let a = scan(content, &upper, "f.txt", &plain_opts());
    let b = scan(content, &lower, "f.txt", &plain_opts());
    assert_eq!(a.len(), 3);
    assert_eq!(b.len(), 3);
    for (x, y) in a.iter().zip(b.iter()) {
        assert_eq!(x.line_index, y.line_index);
        assert_eq!(x.raw_text, y.raw_text);
    }
}

#[test]
fn case_sensitive_matching_keeps_case() {
    let m = compile("foo", false).unwrap();
    let r = scan("FOO\nfoo\n", &m, "f.txt", &plain_opts());
    assert_eq!(r.len(), 1);
    assert_eq!(r[0].line_index, 2);
}

#[test]
fn max_matches_one_yields_two_matches() {
    let m = compile("x", false).unwrap();
    let opts = ScanOptions { show_line_number: false, highlight_matches: false, max_matches: 1 };
    let r = scan("x1\nx2\nx3\nx4\nx5\n", &m, "f.txt", &opts);
    assert_eq!(r.len(), 2);
    assert_eq!(r[0].raw_text, "x1");
    assert_eq!(r[1].raw_text, "x2");
}

#[test]
fn max_matches_zero_is_unbounded() {
    let m = compile("x", false).unwrap();
    let r = scan("x1\nx2\nx3\nx4\nx5\n", &m, "f.txt", &plain_opts());
    assert_eq!(r.len(), 5);
}

#[test]
fn line_number_prefix() {
    let m = compile("b", false).unwrap();
    let opts = ScanOptions { show_line_number: true, highlight_matches: false, max_matches: 0 };
    let r = scan("a\nb\ncb\n", &m, "f.txt", &opts);
    assert_eq!(r.len(), 2);
    assert_eq!(r[0].rendered_text, "2:b");
    assert_eq!(r[1].rendered_text, "3:cb");
    assert_eq!(r[0].raw_text, "b");
}

#[test]
fn highlight_wraps_every_matched_span() {
    let m = compile("foo", false).unwrap();
    let opts = ScanOptions { show_line_number: false, highlight_matches: true, max_matches: 0 };
    let r = scan("foo and foo", &m, "f.txt", &opts);
    assert_eq!(r.len(), 1);
    assert_eq!(
        r[0].rendered_text,
        "\u{1b}[31mfoo\u{1b}[0m and \u{1b}[31mfoo\u{1b}[0m"
    );
    assert_eq!(r[0].raw_text, "foo and foo");
}

#[test]
fn rendered_text_is_built_once_from_raw_text() {
    let m = compile("a", false).unwrap();
    let opts = ScanOptions { show_line_number: true, highlight_matches: true, max_matches: 0 };
    let r = scan("a\n", &m, "f.txt", &opts);
    assert_eq!(r.len(), 1);
    assert_eq!(r[0].raw_text, "a");
    assert_eq!(r[0].rendered_text, "1:\u{1b}[31ma\u{1b}[0m");
}

#[test]
fn trailing_newline_leaves_an_empty_last_line() {
    let lines = split_lines("a\nb\n");
    assert_eq!(lines, vec!["a".to_string(), "b".to_string(), "".to_string()]);
    let lines = split_lines("");
    assert_eq!(lines, vec!["".to_string()]);
    let lines = split_lines("no newline");
    assert_eq!(lines, vec!["no newline".to_string()]);
}

#[test]
fn empty_pattern_matches_every_line_including_trailing_empty() {
    let m = compile("", false).unwrap();
    let r = scan("x\n", &m, "f.txt", &plain_opts());
    assert_eq!(r.len(), 2);
    assert_eq!(r[0].line_index, 1);
    assert_eq!(r[1].line_index, 2);
    assert_eq!(r[1].raw_text, "");
}

#[test]
fn invalid_pattern_is_a_pattern_error() {
    match compile("(", false) {
        Err(e) => assert_eq!(e, PatternError),
        Ok(_) => panic!("an unbalanced pattern must not compile"),
    }
    assert!(compile("(", true).is_err());
    assert!(compile("a(b", false).is_err());
    assert!(compile("a.*b", false).is_ok());
}

#[test]
fn source_path_is_recorded() {
    let m = compile("a", false).unwrap();
    let r = scan("a", &m, "dir/file.txt", &plain_opts());
    assert_eq!(r.len(), 1);
    assert_eq!(r[0].source_path, "dir/file.txt");
}
