//! Texts, numbers, order, JSON.

use bbcli::json::{Json, Members};
use bbcli::numbers::{i64_text, parse_i64, parse_integer, u64_text};
use bbcli::order::{sort_by_name, text_before};
use bbcli::text::{
    contains_char, contains_text, join, lines, split, split_words, strip_last, strip_prefix, trim,
    trim_leading, trim_trailing,
};

#[test]
fn texts_are_trimmed() {
    assert_eq!(trim(" \u{a0}a b\n\u{3000}"), "a b");
    assert_eq!(trim(" \t"), "");
    assert_eq!(trim_leading("//a/", '/'), "a/");
    assert_eq!(trim_trailing("/a//", '/'), "/a");
    assert_eq!(strip_last("5s", 's'), "5");
    assert_eq!(strip_last("5", 's'), "5");
    assert_eq!(strip_prefix("abc", "ab"), Some("c"));
    assert_eq!(strip_prefix("abc", "b"), None);
}

#[test]
fn texts_are_searched_and_parted() {
    assert!(contains_text("größer", "öß"));
    assert!(!contains_text("abc", "abcd"));
    assert!(contains_text("abc", ""));
    assert!(contains_char("a/b", '/'));
    assert_eq!(split("a//b", '/'), ["a", "", "b"]);
    assert_eq!(split("", '/'), [""]);
    assert_eq!(split_words("  a \t b\n"), ["a", "b"]);
    assert_eq!(lines("a\r\nb\n\nc\r"), ["a", "b", "", "c\r"]);
    assert!(lines("").is_empty());
    assert_eq!(join(&vec!["a".to_string(), "b".to_string()], ", "), "a, b");
}

#[test]
fn white_space_and_lines_are_those_of_std() {
    for text in ["a\nb", "a\r\n", "\n\n", "\u{b}x\u{85}", "x\u{2028}y", "\r\r\n", "a\r\rb\n"] {
        assert_eq!(trim(text), text.trim(), "{text:?}");
        assert_eq!(lines(text), text.lines().collect::<Vec<_>>(), "{text:?}");
        assert_eq!(
            split_words(text),
            text.split_whitespace().collect::<Vec<_>>(),
            "{text:?}"
        );
    }
    for n in 0..0x3100u32 {
        if let Some(c) = char::from_u32(n) {
            let text = format!("{c}x{c}");
            assert_eq!(trim(&text), text.trim(), "{n:#x}");
        }
    }
}

#[test]
fn integers_are_written_and_read() {
    for n in [0, 9, 10, 12345, u64::MAX] {
        assert_eq!(u64_text(n), n.to_string());
    }
    for n in [0, -1, 42, i64::MIN, i64::MAX] {
        assert_eq!(i64_text(n), n.to_string());
        assert_eq!(parse_i64(&n.to_string()), Some(n));
    }
    for text in ["", "+", "-", "1a", " 1", "0x1", "99999999999999999999", "-0", "+7", "007"] {
        assert_eq!(parse_i64(text), text.parse::<i64>().ok(), "{text}");
    }
    assert_eq!(parse_integer("18446744073709551615"), Some(u64::MAX as i128));
    assert_eq!(parse_integer("18446744073709551616"), None);
}

#[test]
fn texts_are_sorted_as_std_sorts_them() {
    let texts = ["b", "a", "", "ab", "Z", "ä", "a", "\u{ffff}", "\u{10000}"];
    let mut expected: Vec<String> = texts.iter().map(|s| s.to_string()).collect();
    let sorted = sort_by_name(expected.clone());
    expected.sort();
    assert_eq!(sorted, expected);
    assert!(text_before("a", "b") && !text_before("b", "a") && !text_before("a", "a"));
}

#[test]
fn json_is_read_and_written() {
    let v = Json::parse(r#" {"b": [1, -2, 1.5, null, true, "x\n"], "a": {}} "#).unwrap();
    assert_eq!(v.compact(), "{\"a\":{},\"b\":[1,-2,1.5,null,true,\"x\\n\"]}");
    assert_eq!(v.pretty().lines().next(), Some("{"));
    assert_eq!(Json::parse(&v.pretty()).unwrap(), v);
    assert_eq!(v.clone(), v);
    assert!(v.is_object() && !v.is_null());
    let items = v.get("b").unwrap().as_array().unwrap();
    assert_eq!(items[0], Json::Uint(1));
    assert_eq!(items[1], Json::Int(-2));
    assert_eq!(items[5].as_str(), Some("x\n"));
    assert!(Json::parse("[1").unwrap_err().contains("EOF"));
    let mut m = Members::new();
    m.put("k", Json::text("v"));
    m.put("n", Json::signed(-1));
    assert_eq!(m.object().compact(), "{\"k\":\"v\",\"n\":-1}");
}
