use eldiro::utilities::{
    extract_digits, extract_identitifier, extract_operation, extract_whitespace,
    require_whitespace, tag, take_only, take_while, CharClass,
};

#[test]
fn extract_one_digit() {
    assert_eq!(extract_digits("1+2"), Ok(("+2", "1")));
}

#[test]
fn extract_multiple_digit() {
    assert_eq!(extract_digits("10+20"), Ok(("+20", "10")));
}

#[test]
fn extract_digits_from_invalid_input() {
    assert_eq!(extract_digits(""), Err("Expected digits".to_string()));
}

#[test]
fn extract_only_digits() {
    assert_eq!(extract_digits("1000"), Ok(("", "1000")));
}

#[test]
fn extract_plus() {
    assert_eq!(extract_operation("+1234"), ("1234", "+"));
}

#[test]
fn extract_minus() {
    assert_eq!(extract_operation("-1234"), ("1234", "-"));
}

#[test]
fn extract_asterisk() {
    assert_eq!(extract_operation("*1234"), ("1234", "*"));
}

#[test]
fn extract_slash() {
    assert_eq!(extract_operation("/1234"), ("1234", "/"));
}

#[test]
fn extract_spaces() {
    assert_eq!(extract_whitespace("   abcd"), ("abcd", "   "));
}

#[test]
fn extract_alphabetic_identifier() {
    assert_eq!(extract_identitifier("abc"), Ok(("", "abc")));
}

#[test]
fn extract_alphanumeric_identifier() {
    assert_eq!(extract_identitifier("abc123"), Ok(("", "abc123")));
}

#[test]
fn cannot_extract_numeric_identifier() {
    assert_eq!(extract_identitifier("123abc"), Err("Expected identifier".to_string()));
}

#[test]
fn tag_keyword() {
    assert_eq!(tag("let", "let a = 5"), Ok(" a = 5"));
}

#[test]
fn extract_required_whitespace() {
    assert_eq!(require_whitespace(""), Err("Expected whitespace".to_string()))
}

#[test]
fn extract_digits_rejects_a_letter_at_the_head() {
    assert_eq!(extract_digits("a1"), Err("Expected digits".to_string()));
    assert_eq!(extract_digits("+1"), Err("Expected digits".to_string()));
}

#[test]
fn extract_no_spaces() {
    assert_eq!(extract_whitespace("abcd"), ("abcd", ""));
    assert_eq!(extract_whitespace(""), ("", ""));
}

#[test]
fn extract_spaces_only_spaces_count() {
    assert_eq!(extract_whitespace(" \tabc"), ("\tabc", " "));
    assert_eq!(extract_whitespace("\nabc"), ("\nabc", ""));
}

#[test]
fn require_whitespace_takes_every_space() {
    assert_eq!(require_whitespace("  a b"), Ok(("a b", "  ")));
    assert_eq!(require_whitespace("a "), Err("Expected whitespace".to_string()));
}

#[test]
fn identifier_stops_at_the_first_other_character() {
    assert_eq!(extract_identitifier("ab1 = 2"), Ok((" = 2", "ab1")));
    assert_eq!(extract_identitifier("Zed_9"), Ok(("_9", "Zed")));
}

#[test]
fn identifier_rejects_empty_and_symbols() {
    assert_eq!(extract_identitifier(""), Err("Expected identifier".to_string()));
    assert_eq!(extract_identitifier("_a"), Err("Expected identifier".to_string()));
    assert_eq!(extract_identitifier(" a"), Err("Expected identifier".to_string()));
}

#[test]
fn identifier_is_ascii_only() {
    assert_eq!(extract_identitifier("\u{e9}a"), Err("Expected identifier".to_string()));
    assert_eq!(extract_identitifier("a\u{e9}b"), Ok(("\u{e9}b", "a")));
}

#[test]
fn tag_missing_keyword() {
    assert_eq!(tag("let", "le a"), Err("Expected let".to_string()));
    assert_eq!(tag("let", ""), Err("Expected let".to_string()));
    assert_eq!(tag("=", "a"), Err("Expected =".to_string()));
}

#[test]
fn tag_is_case_sensitive() {
    assert_eq!(tag("let", "Let a"), Err("Expected let".to_string()));
}

#[test]
fn tag_whole_source_and_empty_keyword() {
    assert_eq!(tag("let", "let"), Ok(""));
    assert_eq!(tag("", "abc"), Ok("abc"));
}

#[test]
fn tag_beyond_ascii() {
    assert_eq!(tag("\u{e9}", "\u{e9}t\u{e9}"), Ok("t\u{e9}"));
    assert_eq!(tag("e", "\u{e9}"), Err("Expected e".to_string()));
}

#[test]
fn scanners_split_beyond_ascii() {
    assert_eq!(extract_whitespace("  \u{3c0}1"), ("\u{3c0}1", "  "));
    assert_eq!(extract_digits("12\u{3c0} 3"), Ok(("\u{3c0} 3", "12")));
}

#[test]
fn take_while_by_class() {
    assert_eq!(take_while(CharClass::Digit, "12ab"), ("ab", "12"));
    assert_eq!(take_while(CharClass::Alphanumeric, "12ab  "), ("  ", "12ab"));
    assert_eq!(take_while(CharClass::Space, "12ab"), ("12ab", ""));
}

#[test]
fn take_only_reports_the_given_message() {
    assert_eq!(
        take_only(CharClass::Digit, "x", "no digit".to_string()),
        Err("no digit".to_string())
    );
    assert_eq!(take_only(CharClass::Digit, "7x", "no digit".to_string()), Ok(("x", "7")));
}

#[test]
fn classes_accept_their_characters() {
    assert!(CharClass::Digit.accepts('0'));
    assert!(CharClass::Digit.accepts('9'));
    assert!(!CharClass::Digit.accepts('a'));
    assert!(!CharClass::Digit.accepts('/'));
    assert!(!CharClass::Digit.accepts(':'));
    assert!(CharClass::Space.accepts(' '));
    assert!(!CharClass::Space.accepts('\t'));
    assert!(CharClass::Alphanumeric.accepts('a'));
    assert!(CharClass::Alphanumeric.accepts('Z'));
    assert!(CharClass::Alphanumeric.accepts('5'));
    assert!(!CharClass::Alphanumeric.accepts('_'));
    assert!(!CharClass::Alphanumeric.accepts('\u{e9}'));
}
