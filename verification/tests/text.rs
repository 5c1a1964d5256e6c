use hellbox::headers::{has_room, text_of, visible_text};
use hellbox::number::{decimal, decimal_u64, hex, parse_u64};
use hellbox::text::{
    contains, find, join, rfind, rsplit_once, same_ignoring_case, split, split_once, strip_prefix,
    strip_suffix, to_lower, to_upper, trim,
};
use hyper::header::{HeaderMap, HeaderName, HeaderValue};

#[test]
fn numbers_are_written_as_usual() {
    for n in [0, 7, 10, -1, 6901, i32::MAX, i32::MIN] {
        assert_eq!(decimal(n), n.to_string());
    }
    for n in [0, 9, 10, u64::MAX] {
        assert_eq!(decimal_u64(n), n.to_string());
    }
    assert_eq!(hex(&[0, 9, 0x10, 0xff]), "000910ff");
}

#[test]
fn numbers_are_read_as_usual() {
    for s in ["0", "007", "+5", "18446744073709551615", "18446744073709551616", "", "+", "-1", "1 "] {
        assert_eq!(parse_u64(s), s.parse::<u64>().ok());
    }
}

#[test]
fn texts_are_taken_apart_as_usual() {
    for s in ["", " a ", "\u{a0}x\u{2003}", "\t\n", "a b"] {
        assert_eq!(trim(s), s.trim());
    }
    for s in ["", "a", "a;b", ";", ";;x;"] {
        assert_eq!(split(s, ';'), s.split(';').collect::<Vec<_>>());
        assert_eq!(split_once(s, ';'), s.split_once(';'));
        assert_eq!(rsplit_once(s, ';'), s.rsplit_once(';'));
    }
    assert_eq!(strip_prefix("ébc", "é"), Some("bc"));
    assert_eq!(strip_prefix("bc", "é"), None);
    assert_eq!(strip_suffix("bcé", "é"), Some("bc"));
    assert_eq!(strip_suffix("c", "bc"), None);
}

#[test]
fn texts_are_searched_by_character() {
    assert_eq!(find("éabab", "ab"), Some(1));
    assert_eq!(rfind("éabab", "ab"), Some(3));
    assert_eq!(find("x", "ab"), None);
    assert_eq!(rfind("x", "ab"), None);
    assert_eq!(find("x", ""), Some(0));
    assert!(contains("abc", ""));
    assert!(contains("abc", "bc"));
    assert!(!contains("abc", "cb"));
}

#[test]
fn only_ascii_letters_change_case() {
    assert_eq!(to_lower("AbÉ1"), "abÉ1");
    assert_eq!(to_upper("aBé1"), "ABé1");
    assert!(same_ignoring_case("WebSocket", "websocket"));
    assert!(!same_ignoring_case("É", "é"));
    assert_eq!(join(&vec!["a", "b", "c"], ", "), "a, b, c");
    assert_eq!(join(&vec![], ", "), "");
}

#[test]
fn fields_are_read_as_visible_text() {
    let mut h = HeaderMap::new();
    h.append("x-a", HeaderValue::from_static("one\ttwo"));
    h.append("x-a", HeaderValue::from_static("three"));
    h.insert("x-b", HeaderValue::from_bytes(b"\xc3\xa9").unwrap());
    assert_eq!(text_of(&h, "X-A").as_deref(), Some("one\ttwo"));
    assert_eq!(text_of(&h, "x-b"), None);
    assert_eq!(text_of(&h, "x-c"), None);
    assert_eq!(visible_text(b"a~ "), Some("a~ ".to_string()));
    assert_eq!(visible_text(b"a\x7f"), None);
    assert_eq!(visible_text(b"\x1f"), None);
}

#[test]
fn header_maps_have_room_for_so_many_names() {
    let mut h = HeaderMap::new();
    for i in 0..6550 {
        let name = HeaderName::from_bytes(format!("n{i}").as_bytes()).unwrap();
        h.append(name.clone(), HeaderValue::from_static("a"));
        h.append(name, HeaderValue::from_static("b"));
    }
    assert!(has_room(&h, 3));
    assert!(!has_room(&h, 4));
    assert!(!has_room(&h, usize::MAX));
}
