use convex_backend::json_text::{from_value, print_json, to_value};
use convex_backend::text::{
    byte_len, chars_of, contains, decimal_text, is_listed, join, parse_usize,
    push_decimal, same_text, split, starts_with, text_of, trim,
};

#[test]
fn texts_are_taken_apart() {
    assert_eq!(chars_of("a\u{e9}"), vec!['a', '\u{e9}']);
    assert_eq!(text_of(&['a', '\u{e9}']), "a\u{e9}");
    assert_eq!(split("a/b//c", '/'), "a/b//c".split('/').collect::<Vec<_>>());
    assert_eq!(split("", '/'), vec![""]);
    assert_eq!(byte_len("\u{e9}x"), 3);
    assert_eq!(join(&split("a/b", '/'), ", "), "a, b");
    assert_eq!(join(&vec![], ", "), "");
}

#[test]
fn texts_are_compared() {
    assert!(same_text("ab", "ab"));
    assert!(!same_text("ab", "abc"));
    assert!(starts_with("abc", "ab"));
    assert!(!starts_with("ab", "abc"));
    assert!(contains("abcd", "bc"));
    assert!(contains("abcd", ""));
    assert!(!contains("abcd", "cb"));
    assert!(is_listed(&["a", "b"], "b"));
    assert!(!is_listed(&["a", "b"], "c"));
}

#[test]
fn numbers_are_written_and_read() {
    for n in [0u64, 7, 10, 1234567890, u64::MAX] {
        assert_eq!(decimal_text(n), n.to_string());
    }
    let mut s = "n=".to_string();
    push_decimal(&mut s, 42);
    assert_eq!(s, "n=42");
    for s in ["0", "7", "007", "+5", "-5", "", "x", "18446744073709551615", "18446744073709551616", "+", "1 "] {
        assert_eq!(parse_usize(s), s.parse::<usize>().ok(), "{s}");
    }
}

#[test]
fn white_space_is_trimmed() {
    for s in ["", " ", " a b \n", "\u{a0}x\u{2003}", "\u{feff}x", "\u{200b}x", "\u{85}y\u{3000}"] {
        assert_eq!(trim(s), s.trim(), "{s:?}");
    }
}

#[test]
fn json_values_go_over_and_back() {
    let text = "{\"b\":[1,-2,2.5,null],\"a\":{\"c\":true,\"d\":\"x\"}}";
    let value: serde_json::Value = serde_json::from_str(text).unwrap();
    let json = from_value(value.clone());
    assert_eq!(print_json(&json), text);
    assert_eq!(to_value(&json), value);
}
