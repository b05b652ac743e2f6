use grep_rs::config::parse_options_bool;
use grep_rs::config::parse_options_int;
use grep_rs::config::Configuration;
use grep_rs::strutil::join_strings;
use grep_rs::strutil::parse_usize;
use grep_rs::strutil::str_eq;
use grep_rs::strutil::usize_to_string;

fn args(items: &[&str]) -> Vec<String> {
    items.iter().map(|s| s.to_string()).collect()
}

#[test]
fn no_flags_by_default() {
    let flags = parse_options_bool(&args(&["grep", "pattern", "file"]));
    assert!(!flags.ignore_case);
    assert!(!flags.line_number);
    assert!(!flags.help);
    assert!(!flags.version);
    assert!(!flags.should_show_colour);
    assert!(!flags.recursive);
}

#[test]
fn short_and_long_spellings_are_recognised() {
    let flags = parse_options_bool(&args(&["grep", "-i", "-n", "p", "f"]));
    assert!(flags.ignore_case);
    assert!(flags.line_number);
    let flags = parse_options_bool(&args(&["grep", "--ignore-case", "--line-number", "p", "f"]));
    assert!(flags.ignore_case);
    assert!(flags.line_number);
    let flags = parse_options_bool(&args(&["grep", "--help"]));
    assert!(flags.help);
    let flags = parse_options_bool(&args(&["grep", "-V"]));
    assert!(flags.version);
    let flags = parse_options_bool(&args(&["grep", "--version"]));
    assert!(flags.version);
    let flags = parse_options_bool(&args(&["grep", "-c", "-r", "p", "d"]));
    assert!(flags.should_show_colour);
    assert!(flags.recursive);
    let flags = parse_options_bool(&args(&["grep", "--colour", "--recursive", "p", "d"]));
    assert!(flags.should_show_colour);
    assert!(flags.recursive);
}

#[test]
fn program_name_is_not_a_flag() {
    let flags = parse_options_bool(&args(&["-i"]));
    assert!(!flags.ignore_case);
}

#[test]
fn max_matches_defaults_to_zero() {
    assert_eq!(parse_options_int(&args(&["grep", "p", "f"])), 0);
}

#[test]
fn max_matches_reads_the_numeral_after_the_flag() {
    assert_eq!(parse_options_int(&args(&["grep", "-m", "3", "p", "f"])), 3);
}

#[test]
fn last_max_matches_flag_wins() {
    assert_eq!(parse_options_int(&args(&["grep", "-m", "3", "-m", "7", "p", "f"])), 7);
}

#[test]
fn parse_usize_reads_decimal() {
    assert_eq!(parse_usize("0"), 0);
    assert_eq!(parse_usize("007"), 7);
    assert_eq!(parse_usize("120"), 120);
}

#[test]
fn usize_to_string_renders_decimal() {
    assert_eq!(usize_to_string(0), "0");
    assert_eq!(usize_to_string(9), "9");
    assert_eq!(usize_to_string(10), "10");
    assert_eq!(usize_to_string(120), "120");
}

#[test]
fn str_eq_compares_character_wise() {
    assert!(str_eq("", ""));
    assert!(str_eq("-i", "-i"));
    assert!(!str_eq("-i", "-n"));
    assert!(!str_eq("-i", "-ii"));
}

#[test]
fn join_strings_separates_consecutive_elements() {
    assert_eq!(join_strings(&vec![], "\n"), "");
    assert_eq!(join_strings(&vec!["a".to_string()], "\n"), "a");
    assert_eq!(join_strings(&vec!["a".to_string(), "b".to_string()], "\n"), "a\nb");
}

#[test]
fn configuration_carries_the_invocation() {
    let config = Configuration {
        pattern: "foo".to_string(),
        targets: vec!["a.txt".to_string()],
        ignore_case: true,
        show_line_number: false,
        highlight_matches: false,
        recursive: false,
        max_matches: 2,
    };
    assert_eq!(config.pattern, "foo");
    assert_eq!(config.targets.len(), 1);
    assert_eq!(config.max_matches, 2);
}
