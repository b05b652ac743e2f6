use grep_rs::matcher::compile;
use grep_rs::outcome::scan_read_result;
use grep_rs::outcome::FileErrorKind;
use grep_rs::outcome::ScanOutcome;
use grep_rs::outcome::TraversalReport;
use grep_rs::present::diagnostic;
use grep_rs::present::error_message;
use grep_rs::present::normalize_path;
use grep_rs::present::present_failures;
use grep_rs::present::present_report;
use grep_rs::present::present_single;
use grep_rs::scanner::ScanOptions;

fn plain_opts() -> ScanOptions {
    ScanOptions { show_line_number: false, highlight_matches: false, max_matches: 0 }
}

#[test]
fn missing_file_yields_not_found_and_no_match_lines() {
    let m = compile("foo", false).unwrap();
    let outcome = scan_read_result(
        Err(FileErrorKind::NotFound),
        &m,
        "absent.txt",
        &plain_opts(),
    );
    match outcome {
        ScanOutcome::Failure(kind, path) => {
            assert_eq!(kind, FileErrorKind::NotFound);
            assert_eq!(path, "absent.txt");
        }
        ScanOutcome::Matches(_) => panic!("a read failure must not yield matches"),
    }
}

#[test]
fn decoded_content_is_scanned() {
    let m = compile("foo", false).unwrap();
    let outcome = scan_read_result(
        Ok("foo\nbar\nfoobar\n".to_string()),
        &m,
        "f.txt",
        &plain_opts(),
    );
    match outcome {
        ScanOutcome::Matches(lines) => {
            assert_eq!(lines.len(), 2);
            assert_eq!(lines[0].line_index, 1);
            assert_eq!(lines[1].line_index, 3);
        }
        ScanOutcome::Failure(_, _) => panic!("decoded content must be scanned"),
    }
}

#[test]
fn denied_subdirectory_is_reported_and_siblings_are_still_visited() {
    let m = compile("match", false).unwrap();
    let mut report = TraversalReport::new();
    report.record_dir_failure(FileErrorKind::PermissionDenied, "./root/denied");
    report.record_file(
        Ok("no\nmatch me\n".to_string()),
        &m,
        "./root/open/file.txt",
        &plain_opts(),
    );
    assert_eq!(report.outcomes.len(), 2);
    let shown = present_report(&report);
    assert_eq!(shown, vec!["root/open/file.txt".to_string(), "match me".to_string()]);
    let errors = present_failures(&report);
    assert_eq!(errors, vec!["grep: ./root/denied: Permission denied".to_string()]);
}

#[test]
fn merge_keeps_subtree_outcomes_in_discovery_order() {
    let m = compile("a", false).unwrap();
    let mut subtree = TraversalReport::new();
    subtree.record_file(Ok("a\n".to_string()), &m, "sub/inner.txt", &plain_opts());
    let mut report = TraversalReport::new();
    report.record_file(Ok("b\n".to_string()), &m, "outer.txt", &plain_opts());
    report.merge(subtree);
    assert_eq!(report.outcomes.len(), 2);
    let shown = present_report(&report);
    assert_eq!(shown, vec!["sub/inner.txt".to_string(), "a".to_string()]);
}

#[test]
fn zero_matches_emit_an_empty_single_file_line_and_no_multi_file_header() {
    let empty = present_single(&vec![]);
    assert_eq!(empty, "");
    let m = compile("zzz", false).unwrap();
    let mut report = TraversalReport::new();
    report.record_file(Ok("nothing here\n".to_string()), &m, "f.txt", &plain_opts());
    assert_eq!(report.outcomes.len(), 1);
    assert_eq!(present_report(&report), Vec::<String>::new());
    assert_eq!(present_failures(&report), Vec::<String>::new());
}

#[test]
fn single_file_output_joins_rendered_lines() {
    let m = compile("x", false).unwrap();
    let outcome = scan_read_result(Ok("x1\nskip\nx2\n".to_string()), &m, "f.txt", &plain_opts());
    match outcome {
        ScanOutcome::Matches(lines) => {
            assert_eq!(present_single(&lines), "x1\nx2");
        }
        ScanOutcome::Failure(_, _) => panic!("decoded content must be scanned"),
    }
}

#[test]
fn normalize_path_strips_leading_traversal_markers() {
    assert_eq!(normalize_path("./a/b.txt"), "a/b.txt");
    assert_eq!(normalize_path("../x"), "x");
    assert_eq!(normalize_path("././y"), "y");
    assert_eq!(normalize_path(".././z"), "z");
    assert_eq!(normalize_path("a/./b"), "a/./b");
    assert_eq!(normalize_path("plain.txt"), "plain.txt");
}

#[test]
fn diagnostics_identify_path_and_reason() {
    assert_eq!(
        diagnostic(&FileErrorKind::NotFound, "f.txt"),
        "grep: f.txt: No such file or directory"
    );
    assert_eq!(
        diagnostic(&FileErrorKind::NotText, "img.png"),
        "grep: img.png: Has invalid data, likely not a text file"
    );
    assert_eq!(
        diagnostic(&FileErrorKind::Other("odd".to_string()), "p"),
        "grep: p: odd"
    );
    assert_eq!(error_message(&FileErrorKind::PermissionDenied), "Permission denied");
}

#[test]
fn failures_do_not_interleave_with_match_output() {
    let m = compile("hit", false).unwrap();
    let mut report = TraversalReport::new();
    report.record_file(Ok("hit one\n".to_string()), &m, "a.txt", &plain_opts());
    report.record_file(Err(FileErrorKind::NotFound), &m, "gone.txt", &plain_opts());
    report.record_file(Ok("hit two\n".to_string()), &m, "b.txt", &plain_opts());
    let shown = present_report(&report);
    assert_eq!(
        shown,
        vec![
            "a.txt".to_string(),
            "hit one".to_string(),
            "b.txt".to_string(),
            "hit two".to_string(),
        ]
    );
    let errors = present_failures(&report);
    assert_eq!(errors, vec!["grep: gone.txt: No such file or directory".to_string()]);
}
