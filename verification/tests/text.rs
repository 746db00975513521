//! Texts, numbers in texts, and maps from texts.

use waveflow_commands::decimal::{i64_text, parse_i64, parse_nat, u64_text};
use waveflow_commands::settings::{switch_or, switch_value, unless_blank};
use waveflow_commands::text::{
    around, before, blank, comes_before, drop_tail, lines, list_has, same_text, split, strip_end,
};
use waveflow_commands::text_map::TextMap;

#[test]
fn white_space_is_what_the_characters_say() {
    let white = |c: char| {
        let n = c as u32;
        (0x9..=0xD).contains(&n)
            || (0x2000..=0x200A).contains(&n)
            || [0x20, 0x85, 0xA0, 0x1680, 0x2028, 0x2029, 0x202F, 0x205F, 0x3000].contains(&n)
    };
    for n in 0..=0x10FFFF {
        if let Some(c) = char::from_u32(n) {
            assert_eq!(c.is_whitespace(), white(c), "{n:x}");
        }
    }
    for n in 0..0x3100 {
        if let Some(c) = char::from_u32(n) {
            assert_eq!(blank(&c.to_string()), white(c), "{n:x}");
        }
    }
}

#[test]
fn lines_are_those_of_the_standard_library() {
    for s in ["", "a", "a\n", "a\nb", "a\r\nb\r", "\n\n", "a\rb", "\r\n"] {
        let expected: Vec<String> = s.lines().map(|l| l.to_owned()).collect();
        assert_eq!(lines(s), expected, "{s:?}");
    }
    for s in ["", ":", "a:b", ":a::b:"] {
        let expected: Vec<String> = s.split(':').map(|l| l.to_owned()).collect();
        assert_eq!(split(s, ':'), expected, "{s:?}");
    }
}

#[test]
fn texts_are_cut_and_joined() {
    assert_eq!(around("a", "b", "c"), "abc");
    assert_eq!(before("a; b; c", "; "), "a");
    assert_eq!(before("abc", "; "), "abc");
    assert_eq!(drop_tail("a \r\n \n"), "a");
    assert_eq!(strip_end("a/b//", '/'), "a/b");
    assert_eq!(strip_end("//", '/'), "");
    assert!(same_text("é", "é"));
    assert!(list_has(&vec!["a".to_owned()], "a"));
    for (a, b) in [("a", "b"), ("", "a"), ("a", "ab"), ("Z", "a"), ("z", "é"), ("é", "\u{10000}")] {
        assert!(comes_before(a, b));
        assert!(!comes_before(b, a));
        assert!(a < b);
    }
}

#[test]
fn numbers_read_back() {
    for n in [0, 1, -1, 9, 10, 1_234_567, i64::MIN, i64::MAX] {
        assert_eq!(i64_text(n), n.to_string());
        assert_eq!(parse_i64(&i64_text(n)), Some(n));
    }
    for n in [0, 7, u64::MAX] {
        assert_eq!(u64_text(n), n.to_string());
    }
    for s in ["", "-", "+", "+5", "-5", "05", " 5", "5 ", "9223372036854775808", "-9223372036854775808", "-9223372036854775809", "٣", "1_0", "--1", "+-1"] {
        assert_eq!(parse_i64(s), s.parse::<i64>().ok(), "{s:?}");
    }
    for s in ["", "+", "4294967295", "4294967296", "+7", "-0", "-1", "007"] {
        assert_eq!(parse_nat(s, u32::MAX as u64), s.parse::<u32>().ok().map(|n| n as u64), "{s:?}");
    }
}

#[test]
fn switches_read_back() {
    for on in [true, false] {
        assert_eq!(switch_or(&Some(switch_value(on).to_owned()), !on), on);
        assert_eq!(switch_or(&None, on), on);
    }
    assert_eq!(unless_blank(Some(" ".to_owned())), None);
    assert_eq!(unless_blank(Some(" a".to_owned())), Some(" a".to_owned()));
}

#[test]
fn a_map_holds_the_last_value() {
    let mut m: TextMap<i64> = TextMap::new();
    m.insert("a".to_owned(), 1);
    m.insert("b".to_owned(), 2);
    m.insert("a".to_owned(), 3);
    assert_eq!(m.len(), 2);
    assert_eq!(m.get("a"), Some(&3));
    m.remove("a");
    assert_eq!(m.get("a"), None);
    assert_eq!(m.key_at(0), "b");
}
