use sessionizer::text::sanitize_session_name;
use sessionizer::text::split_string;
use sessionizer::text::trim_newlines;

#[test]
fn sanitize_replaces_every_dot() {
    assert_eq!(sanitize_session_name("client.v2"), "client_v2");
}

#[test]
fn sanitize_handles_many_dots() {
    assert_eq!(sanitize_session_name("a.b.c"), "a_b_c");
}

#[test]
fn sanitize_leaves_dotless_names_alone() {
    assert_eq!(sanitize_session_name("work/siteA"), "work/siteA");
}

#[test]
fn split_keeps_trailing_empty_segment() {
    let parts = split_string("one\ntwo\n", '\n');
    assert_eq!(parts, vec!["one".to_string(), "two".to_string(), String::new()]);
}

#[test]
fn split_of_empty_string_is_one_empty_segment() {
    assert_eq!(split_string("", '\n'), vec![String::new()]);
}

#[test]
fn split_without_separator_is_whole_string() {
    assert_eq!(split_string("abc", '\n'), vec!["abc".to_string()]);
}

#[test]
fn split_keeps_empty_middle_segments() {
    let parts = split_string("a//b", '/');
    assert_eq!(parts, vec!["a".to_string(), String::new(), "b".to_string()]);
}

#[test]
fn trim_strips_trailing_line_endings() {
    assert_eq!(trim_newlines("main\r\n"), "main");
    assert_eq!(trim_newlines("main\n"), "main");
}

#[test]
fn trim_leaves_clean_names_alone() {
    assert_eq!(trim_newlines("main"), "main");
}

#[test]
fn trim_of_only_line_endings_is_empty() {
    assert_eq!(trim_newlines("\r\n\n"), "");
}
