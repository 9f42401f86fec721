use backend::text::{i64_to_text, parse_i64, same_text, skip_chars, starts_with};

#[test]
fn parse_i64_reads_plain_digits() {
    assert_eq!(parse_i64("1700000000000"), Some(1_700_000_000_000));
    assert_eq!(parse_i64("0"), Some(0));
    assert_eq!(parse_i64("007"), Some(7));
}

#[test]
fn parse_i64_agrees_with_std_on_edge_cases() {
    let cases = vec![
        "", "+", "-", "+5", "-5", "-0", "+0", " 5", "5 ", "5_0", "1e3", "0x10", "--5", "+-5",
        "9223372036854775807", "9223372036854775808", "-9223372036854775808",
        "-9223372036854775809", "00000000000000000000000000000000000001",
        "99999999999999999999999999999999999999999999", "１２３", "12a", "a12", "1.5",
    ];
    for case in cases {
        assert_eq!(parse_i64(case), case.parse::<i64>().ok(), "input {:?}", case);
    }
}

#[test]
fn i64_to_text_agrees_with_std() {
    for n in [0, 1, -1, 9, 10, -10, 42, 1_700_000_000_123, i64::MAX, i64::MIN, 1_000_000, -999] {
        assert_eq!(i64_to_text(n), n.to_string());
        assert_eq!(parse_i64(&i64_to_text(n)), Some(n));
    }
}

#[test]
fn starts_with_and_skip_chars_count_characters() {
    assert!(starts_with("/chat/messages/x", "/chat/messages/"));
    assert!(starts_with("abc", ""));
    assert!(starts_with("", ""));
    assert!(!starts_with("ab", "abc"));
    assert!(!starts_with("äbc", "a"));
    assert!(starts_with("äbc", "äb"));
    assert_eq!(skip_chars("äbc", 1), "bc");
    assert_eq!(skip_chars("äbc", 0), "äbc");
    assert_eq!(skip_chars("äbc", 3), "");
    assert!(same_text("a", "a"));
    assert!(!same_text("a", "b"));
    assert!(!same_text("a", "ab"));
}
