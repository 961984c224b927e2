use autopilot_core::decimal::{dec_i64, dec_u64, parse_i64, parse_u32, parse_usize};
use autopilot_core::order::comes_before;
use autopilot_core::paths::{file_name, join, parts, same_path};
use autopilot_core::text::{
    before_char, contains, ends_with, eq_ignore_ascii_case, keep_first, keep_last, lines, replace,
    split_once, starts_with, tail_lines, trim, words,
};

#[test]
fn numbers_are_written_in_decimal() {
    assert_eq!(dec_i64(-42), "-42");
    assert_eq!(dec_i64(i64::MIN), "-9223372036854775808");
    assert_eq!(dec_u64(0), "0");
    assert_eq!(dec_u64(u64::MAX), "18446744073709551615");
}

#[test]
fn numbers_are_read_as_the_standard_library_reads_them() {
    for s in ["0", "+7", "-7", "007", "", "+", "-", "1x", " 1", "9223372036854775807",
        "9223372036854775808", "-9223372036854775808", "-9223372036854775809", "4294967295",
        "4294967296", "18446744073709551615", "18446744073709551616"]
    {
        assert_eq!(parse_i64(s), s.parse::<i64>().ok(), "{}", s);
        assert_eq!(parse_u32(s), s.parse::<u32>().ok(), "{}", s);
        assert_eq!(parse_usize(s), s.parse::<usize>().ok(), "{}", s);
    }
}

#[test]
fn written_numbers_read_back() {
    for n in [0i64, 1, -1, 10, 99, -100, i64::MAX, i64::MIN] {
        assert_eq!(parse_i64(&dec_i64(n)), Some(n));
    }
}

#[test]
fn texts_are_trimmed_and_searched() {
    assert_eq!(trim("\u{a0} \tа б\n\u{3000}"), "а б");
    assert_eq!(trim("  "), "");
    assert!(contains("абвгд", "вг"));
    assert!(contains("абв", ""));
    assert!(!contains("аб", "абв"));
    assert!(starts_with("/status", "/"));
    assert!(!starts_with("", "/"));
    assert!(ends_with("session-1.log", ".log"));
    assert!(!ends_with("log", ".log"));
    assert!(eq_ignore_ascii_case("RU", "ru"));
    assert!(!eq_ignore_ascii_case("РУ", "ру"));
}

#[test]
fn texts_are_split_as_the_standard_library_splits_them() {
    for s in ["", "a", "a\nb", "a\r\nb\n", "\n\n", "a\rb", "x\r\n\r\ny", "\r\n", "a\r"] {
        let want: Vec<String> = s.lines().map(String::from).collect();
        assert_eq!(lines(s), want, "{:?}", s);
    }
    for s in ["", "  ", "a b", " a  b\tc\n", "\u{a0}x\u{2003}y"] {
        let want: Vec<String> = s.split_whitespace().map(String::from).collect();
        assert_eq!(words(s), want, "{:?}", s);
    }
    assert_eq!(before_char("/status@MyBot", '@'), "/status");
    assert_eq!(before_char("/status", '@'), "/status");
    assert_eq!(split_once("t|a|b", '|'), Some(("t", "a|b")));
    assert_eq!(split_once("t", '|'), None);
}

#[test]
fn texts_are_replaced_from_the_left() {
    assert_eq!(replace("aaa", "aa", "b"), "ba");
    assert_eq!(replace("x{{N}}y{{N}}", "{{N}}", "1"), "x1y1");
    assert_eq!(replace("", "a", "b"), "");
}

#[test]
fn ends_of_texts_are_kept() {
    assert_eq!(keep_first("абвг", 2), "аб");
    assert_eq!(keep_first("аб", 5), "аб");
    assert_eq!(keep_last("абвг", 2), "вг");
    assert_eq!(keep_last("аб", 5), "аб");
    assert_eq!(tail_lines("1\n2\n3\n", 2), "2\n3");
    assert_eq!(tail_lines("1\n2", 5), "1\n2");
    assert_eq!(tail_lines("1\n2", 0), "");
}

#[test]
fn texts_are_ordered_by_their_characters() {
    assert!(comes_before("", "a"));
    assert!(comes_before("a", "ab"));
    assert!(comes_before("2026-01-02", "2026-01-10"));
    assert!(!comes_before("a", "a"));
    assert!(!comes_before("б", "а"));
    assert!(comes_before("z", "а"));
}

#[test]
fn paths_are_joined() {
    assert_eq!(join("/a", "b"), "/a/b");
    assert_eq!(join("/a/", "b"), "/a/b");
    assert_eq!(join("/a", "/b"), "/b");
    assert_eq!(join("", "b"), "b");
    assert_eq!(join("/a", ""), "/a/");
}

#[test]
fn paths_are_compared_part_by_part() {
    assert!(same_path("/a/b", "/a//b/"));
    assert!(same_path("/a/./b", "/a/b"));
    assert!(!same_path("a/b", "/a/b"));
    assert!(!same_path("./a", "a"));
    assert!(!same_path("/a/../b", "/b"));
    for (a, b) in [("/a/b", "/a/b/"), ("./a", "a"), ("a/.", "a"), ("/", "//"), (".", ""), ("a/..", "a/../")] {
        assert_eq!(same_path(a, b), std::path::Path::new(a) == std::path::Path::new(b), "{} {}", a, b);
    }
}

#[test]
fn paths_have_a_last_name() {
    for p in ["/a/b", "/a/b/", "/", "", "a", ".", "a/.", "a/..", "..", "/x.log"] {
        let want = std::path::Path::new(p).file_name().map(|s| s.to_string_lossy().to_string());
        assert_eq!(file_name(p), want, "{}", p);
    }
    assert_eq!(parts("/a//b/./c"), vec!["a".to_string(), "b".to_string(), "c".to_string()]);
}
