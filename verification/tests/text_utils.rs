use llmcli::text::{chars_of, is_blank, str_eq, tokens_of};

#[test]
fn tokens_split_on_any_whitespace_run() {
    let parts = tokens_of("  /system\t be \r\n terse  ");
    assert_eq!(
        parts,
        vec!["/system".to_string(), "be".to_string(), "terse".to_string()]
    );
}

#[test]
fn tokens_of_blank_input_are_empty() {
    assert_eq!(tokens_of("").len(), 0);
    assert_eq!(tokens_of(" \t ").len(), 0);
}

#[test]
fn blankness_sees_only_whitespace() {
    assert!(is_blank(""));
    assert!(is_blank(" \t\r\n"));
    assert!(!is_blank(" x "));
}

#[test]
fn string_equality_is_by_characters() {
    assert!(str_eq("abc", "abc"));
    assert!(!str_eq("abc", "abd"));
    assert!(!str_eq("abc", "ab"));
    assert!(str_eq("", ""));
}

#[test]
fn chars_round_trip_through_the_vector() {
    let chars = chars_of("héllo");
    assert_eq!(chars.len(), 5);
    assert_eq!(chars[1], 'é');
}
