use numbat_proc::text::{find_marker, join_lines, split_lines};
use numbat_proc::token::{second_token, starts_with_let};

#[test]
fn find_marker_reports_first_occurrence() {
    assert_eq!(find_marker("1 + 1#=", "#="), Some(5));
    assert_eq!(find_marker("a#=b#=", "#="), Some(1));
    assert_eq!(find_marker("#=", "#="), Some(0));
    assert_eq!(find_marker("no marker here", "#="), None);
    assert_eq!(find_marker("#", "#="), None);
}

#[test]
fn join_lines_inserts_single_newlines() {
    assert_eq!(join_lines(&vec![]), "".to_string());
    assert_eq!(join_lines(&vec!["solo".to_string()]), "solo".to_string());
    assert_eq!(
        join_lines(&vec!["a".to_string(), "b".to_string(), "c".to_string()]),
        "a\nb\nc".to_string()
    );
    assert_eq!(
        join_lines(&vec!["".to_string(), "x".to_string()]),
        "\nx".to_string()
    );
}

#[test]
fn split_lines_matches_lenient_line_reading() {
    assert_eq!(split_lines(""), Vec::<String>::new());
    assert_eq!(split_lines("a\nb"), vec!["a".to_string(), "b".to_string()]);
    assert_eq!(split_lines("a\nb\n"), vec!["a".to_string(), "b".to_string()]);
    assert_eq!(
        split_lines("a\r\nb\r\n"),
        vec!["a".to_string(), "b".to_string()]
    );
    assert_eq!(split_lines("\n\n"), vec!["".to_string(), "".to_string()]);
    // a carriage return is stripped only from a newline-terminated segment
    assert_eq!(split_lines("a\r"), vec!["a\r".to_string()]);
}

#[test]
fn second_token_is_the_bound_name() {
    assert_eq!(second_token("let x = 1"), Some("x".to_string()));
    assert_eq!(second_token("let   spaced =  2"), Some("spaced".to_string()));
    assert_eq!(second_token("let"), None);
    assert_eq!(second_token("let   "), None);
    assert_eq!(second_token(""), None);
}

#[test]
fn binding_keyword_prefix_is_detected() {
    assert!(starts_with_let("let x = 1"));
    assert!(starts_with_let("letter"));
    assert!(!starts_with_let("le"));
    assert!(!starts_with_let(" let x = 1"));
}
