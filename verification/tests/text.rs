use rust_hw::number::{decimal_string, parse_i64};
use rust_hw::text::{contains_str, split_once_at, split_words, str_eq, trim, white_space};

#[test]
fn trim_removes_unicode_whitespace() {
    assert_eq!(trim("  a b \n"), "a b");
    assert_eq!(trim("\u{3000}x\u{85}"), "x");
    assert_eq!(trim("   "), "");
    assert_eq!(trim(""), "");
    assert_eq!(trim("  a b \n"), "  a b \n".trim());
}

#[test]
fn white_space_matches_std() {
    for u in 0u32..0x3100 {
        if let Some(c) = char::from_u32(u) {
            assert_eq!(white_space(c), c.is_whitespace(), "code {:x}", u);
        }
    }
}

#[test]
fn split_words_like_split_whitespace() {
    let text = "  one two\tthree\n\nfour ";
    let got = split_words(text);
    let want: Vec<String> = text.split_whitespace().map(|w| w.to_string()).collect();
    assert_eq!(got, want);
    assert!(split_words("   ").is_empty());
}

#[test]
fn split_once_at_first_separator() {
    assert_eq!(split_once_at("a b c", ' '), ("a", Some("b c")));
    assert_eq!(split_once_at("abc", ' '), ("abc", None));
    assert_eq!(split_once_at("x\"", '"'), ("x", Some("")));
}

#[test]
fn contains_and_equality() {
    assert!(contains_str("hello", "ll"));
    assert!(contains_str("hello", ""));
    assert!(!contains_str("hello", "lo!"));
    assert!(!contains_str("", "a"));
    assert!(str_eq("abc", "abc"));
    assert!(!str_eq("abc", "abd"));
    assert!(!str_eq("abc", "ab"));
}

#[test]
fn parse_i64_like_std() {
    for t in ["0", "-0", "+5", "-5", "123", "", "+", "-", "1a", " 1", "9223372036854775807",
        "9223372036854775808", "-9223372036854775808", "-9223372036854775809", "+-1", "00012"]
    {
        assert_eq!(parse_i64(t), t.parse::<i64>().ok(), "input {:?}", t);
    }
}

#[test]
fn decimal_string_like_to_string() {
    for n in [0, 7, 10, 99, 100, -1, -10, 123456, i32::MAX, i32::MIN] {
        assert_eq!(decimal_string(n), n.to_string());
    }
}
