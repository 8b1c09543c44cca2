use ghrouter::list::parse_env_list;
use ghrouter::path::normalize_path;
use ghrouter::root::nginx_html;

#[test]
fn parse_env_list_handles_separators() {
    let value = "one,two|three\nfour\tfive";
    let parsed = parse_env_list(value);
    assert_eq!(parsed, vec!["one", "two", "three", "four", "five"]);
}

#[test]
fn parse_env_list_collapses_consecutive_separators() {
    assert_eq!(parse_env_list("a,,,,b|||c"), vec!["a", "b", "c"]);
}

#[test]
fn parse_env_list_trims_leading_trailing() {
    assert_eq!(parse_env_list(",,,a,b,,,"), vec!["a", "b"]);
}

#[test]
fn parse_env_list_empty_input() {
    assert!(parse_env_list("").is_empty());
    assert!(parse_env_list(",,,|||").is_empty());
}

#[test]
fn parse_env_list_keeps_quotes_and_cr_as_separators() {
    assert_eq!(parse_env_list("'a'\r\"b\""), vec!["a", "b"]);
}

#[test]
fn parse_env_list_keeps_inner_spaces() {
    assert_eq!(parse_env_list("a b, c"), vec!["a b", " c"]);
}

#[test]
fn normalize_path_decodes_and_lowercases() {
    let normalized = normalize_path("/Some%20Path/File.TXT");
    assert_eq!(normalized, "/some path/file.txt");
}

#[test]
fn normalize_path_invalid_encoding_passthrough() {
    assert_eq!(normalize_path("/foo%ZZbar"), "/foo%zzbar");
}

#[test]
fn normalize_path_plain_path_only_lowercases() {
    assert_eq!(normalize_path("/Docs/Readme.MD"), "/docs/readme.md");
}

#[test]
fn nginx_html_contains_expected_content() {
    let html = nginx_html();
    assert!(html.contains("<!DOCTYPE html>"));
    assert!(html.contains("Welcome to nginx!"));
}
