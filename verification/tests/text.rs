//! Texts and numbers.

use dissimkl::number::{decimal_text, read_i64, read_u32, read_u64, two_digit_text};
use dissimkl::text::{
    front_of, has_text, join, past_first, past_last, same_text, split, strip,
    strip_prefix, strip_prefixes, trim, up_to_first, Edge,
};

#[test]
fn white_space_is_trimmed() {
    for s in ["", " ", " a b\t\n", "\u{a0}x\u{3000}", "a", "\u{200b}a"] {
        assert_eq!(trim(s), s.trim());
    }
}

#[test]
fn slashes_are_stripped() {
    for s in ["", "/", "///", "/a/b/", "a//", "a"] {
        assert_eq!(strip(s, Edge::Slash), s.trim_matches('/'));
    }
}

#[test]
fn pieces_between_separators() {
    for s in ["", "/", "a", "a/b", "/a//b/"] {
        let expected: Vec<String> = s.split('/').map(str::to_string).collect();
        assert_eq!(split(s, '/'), expected);
    }
    assert_eq!(join(&vec!["a".to_string(), "".to_string(), "b".to_string()], " "), "a  b");
    assert_eq!(join(&vec![], " "), "");
}

#[test]
fn prefixes() {
    assert_eq!(strip_prefix("season-3", "season-"), Some("3"));
    assert_eq!(strip_prefix("sea", "season-"), None);
    assert_eq!(strip_prefixes("ababc", "ab"), "c");
    assert_eq!(strip_prefixes("abc", ""), "abc");
}

#[test]
fn parts_of_a_text() {
    assert_eq!(up_to_first("a_b_c", '_'), "a");
    assert_eq!(up_to_first("abc", '_'), "abc");
    assert_eq!(past_first("a/b/c", '/'), Some("b/c"));
    assert_eq!(past_first("abc", '/'), None);
    assert_eq!(past_last("a:b:c", ':'), Some("c"));
    assert_eq!(past_last("abc:", ':'), Some(""));
    assert_eq!(past_last("abc", ':'), None);
    assert!(has_text("Please Slow down!", "Slow down"));
    assert!(!has_text("slow down", "Slow down"));
    assert!(has_text("x", ""));
    assert!(same_text("é", "é") && !same_text("e", "é") && !same_text("a", "ab"));
}

#[test]
fn bytes_at_the_front() {
    assert_eq!(front_of("abc", 2), Some("ab"));
    assert_eq!(front_of("éb", 2), Some("é"));
    assert_eq!(front_of("aé", 2), None);
    assert_eq!(front_of("a", 2), None);
    assert_eq!(front_of("€", 2), None);
}

#[test]
fn numbers_are_written() {
    for n in [0, 9, 10, 1029, u64::MAX] {
        assert_eq!(decimal_text(n), n.to_string());
    }
    for n in [0, 7, 10, 99, 100, u32::MAX] {
        assert_eq!(two_digit_text(n), format!("{n:02}"));
    }
}

#[test]
fn numbers_are_read_as_std_reads_them() {
    for s in [
        "", "+", "-", "0", "007", "+5", "-0", "-5", "12a", " 1", "1_0", "4294967295",
        "4294967296", "18446744073709551615", "18446744073709551616", "9223372036854775807",
        "9223372036854775808", "-9223372036854775808", "-9223372036854775809", "٣",
        "00000000000000000000000000001",
    ] {
        assert_eq!(read_u64(s), s.parse().ok(), "{s}");
        assert_eq!(read_u32(s), s.parse().ok(), "{s}");
        assert_eq!(read_i64(s), s.parse().ok(), "{s}");
    }
}

#[test]
fn written_numbers_read_back() {
    for n in [0, 1, 42, u64::MAX - 1, u64::MAX] {
        assert_eq!(read_u64(&decimal_text(n)), Some(n));
    }
}
