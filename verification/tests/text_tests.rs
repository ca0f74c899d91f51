use familyline_server::text::{
    decimal_string, hex16_string, join_strings, parse_usize, split_str, str_contains, str_eq,
    trimmed, white_space,
};

#[test]
fn decimal_notation() {
    assert_eq!(decimal_string(0), "0");
    assert_eq!(decimal_string(7), "7");
    assert_eq!(decimal_string(1234), "1234");
    assert_eq!(decimal_string(u64::MAX), "18446744073709551615");
}

#[test]
fn hexadecimal_notation_is_padded() {
    assert_eq!(hex16_string(0), "0000000000000000");
    assert_eq!(hex16_string(255), "00000000000000ff");
    assert_eq!(hex16_string(u64::MAX), "ffffffffffffffff");
    assert_eq!(hex16_string(0x0123456789abcdef), "0123456789abcdef");
}

#[test]
fn trimming_removes_unicode_white_space() {
    assert_eq!(trimmed("  a b \t\n"), "a b");
    assert_eq!(trimmed("\u{3000}x\u{85}"), "x");
    assert_eq!(trimmed("   "), "");
    assert_eq!(trimmed(""), "");
    assert_eq!(trimmed("abc\r"), "abc");
    assert!(white_space('\u{2028}'));
    assert!(!white_space('\u{200b}'));
    assert!(!white_space('a'));
}

#[test]
fn substring_search() {
    assert!(str_contains("text/plain, application/json", "application/json"));
    assert!(!str_contains("abc", "abd"));
    assert!(str_contains("", ""));
    assert!(!str_contains("", "a"));
    assert!(str_contains("aab", "ab"));
    assert!(str_eq("same", "same"));
    assert!(!str_eq("same", "Same"));
}

#[test]
fn splitting_keeps_empty_pieces() {
    assert_eq!(split_str("a,b,,c", ","), vec!["a", "b", "", "c"]);
    assert_eq!(split_str("", ","), vec![""]);
    assert_eq!(split_str("x\r\ny\r\n", "\r\n"), vec!["x", "y", ""]);
    assert_eq!(split_str("no separator", "\r\n"), vec!["no separator"]);
    assert_eq!(split_str("a\rb\n", "\r\n"), vec!["a\rb\n"]);
}

#[test]
fn joining_puts_the_separator_between() {
    let lines = vec!["a".to_string(), "b".to_string(), "c".to_string()];
    assert_eq!(join_strings(&lines, "\r\n"), "a\r\nb\r\nc");
    let one = vec!["only".to_string()];
    assert_eq!(join_strings(&one, ", "), "only");
    let none: Vec<String> = Vec::new();
    assert_eq!(join_strings(&none, ", "), "");
}

#[test]
fn parsing_unsigned_numbers() {
    assert_eq!(parse_usize("42"), Some(42));
    assert_eq!(parse_usize("+7"), Some(7));
    assert_eq!(parse_usize("007"), Some(7));
    assert_eq!(parse_usize("-7"), None);
    assert_eq!(parse_usize(""), None);
    assert_eq!(parse_usize("+"), None);
    assert_eq!(parse_usize("12a"), None);
    assert_eq!(parse_usize(" 12"), None);
    assert_eq!(parse_usize("5\r"), None);
    assert_eq!(parse_usize("18446744073709551615"), Some(usize::MAX));
    assert_eq!(parse_usize("18446744073709551616"), None);
    assert_eq!(parse_usize("99999999999999999999x"), None);
}

#[test]
fn decimal_parses_back() {
    for n in [0usize, 9, 10, 12345, usize::MAX] {
        assert_eq!(parse_usize(&decimal_string(n as u64)), Some(n));
    }
}
