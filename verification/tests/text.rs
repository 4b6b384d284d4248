use simple_chat_backend::numeric::{parse_i64, zero_padded_chars};
use simple_chat_backend::text::{chars_of, contains_str, trim_str};

fn parse(text: &str) -> Option<i64> {
    parse_i64(&text.chars().collect())
}

fn padded(v: i64, width: usize) -> String {
    zero_padded_chars(v, width).into_iter().collect()
}

#[test]
fn trimming_matches_std() {
    for text in ["", "  ", " a ", "\u{2003}b\u{85}", "x  y", "\t\n z\r"] {
        assert_eq!(trim_str(text), text.trim(), "input {text:?}");
        assert_eq!(trim_str(trim_str(text)), trim_str(text));
    }
    assert_eq!(chars_of("héllo"), vec!['h', 'é', 'l', 'l', 'o']);
}

#[test]
fn integer_parsing_matches_std() {
    for text in [
        "0", "-0", "+7", "42", "-42", "9223372036854775807", "-9223372036854775808",
        "9223372036854775808", "-9223372036854775809", "", "+", "-", "1_000", " 1", "0x10",
        "00012", "99999999999999999999999",
    ] {
        assert_eq!(parse(text), text.parse::<i64>().ok(), "input {text:?}");
    }
}

#[test]
fn zero_padding_matches_std() {
    for v in [0i64, 7, -7, 1_700_000_000_123_456, i64::MAX, i64::MIN] {
        assert_eq!(padded(v, 20), format!("{v:020}"), "value {v}");
    }
    assert_eq!(padded(-5, 3), format!("{:03}", -5));
    assert_eq!(padded(12345, 2), "12345");
}

#[test]
fn substring_search() {
    assert!(contains_str("abcdef", "cde"));
    assert!(contains_str("abc", ""));
    assert!(!contains_str("ab", "abc"));
    assert!(!contains_str("abcdef", "ce"));
}

#[test]
fn whitespace_set_matches_std() {
    for code in 0u32..0x1_0000 {
        if let Some(c) = char::from_u32(code) {
            let text = c.to_string();
            assert_eq!(trim_str(&text).is_empty(), c.is_whitespace(), "code point {code:#x}");
        }
    }
}
