use edr::interface::cli::csv_escape;
use edr::number::{read_i32, read_unsigned, to_decimal, to_signed_decimal};
use edr::path::{file_name, join};
use edr::split::{split, split_lines, split_whitespace};
use edr::text::{
    contains, ends_with, from_chars, pad, pad_left, replace, same_text, starts_with,
    to_chars, trim, truncate, whitespace,
};
use edr::time::{Clock, Timestamp, DATE_TIME, DIRECTORY_STAMP, TIME_OF_DAY};
use std::path::Path;

const SAMPLES: [&str; 16] = [
    "",
    " ",
    "a",
    "a b",
    "  a\tb \n",
    "é…\u{2003}x",
    "one\ntwo\r\nthree",
    "one\n\n",
    "\r\n\r",
    "a:b::c",
    ":",
    "x|y|z",
    "aaa",
    "\u{10ffff}\u{85}",
    "/usr/lib//x.so/",
    "tail\r",
];

#[test]
fn whitespace_is_that_of_unicode() {
    for u in 0..=0x10ffffu32 {
        if let Some(c) = char::from_u32(u) {
            assert_eq!(whitespace(c), c.is_whitespace(), "{:x}", u);
        }
    }
}

#[test]
fn texts_are_searched_and_cut_like_std() {
    for a in SAMPLES {
        let chars = to_chars(a);
        assert_eq!(from_chars(&chars), a);
        assert_eq!(from_chars(trim(&chars)), a.trim());
        assert_eq!(split_whitespace(&chars), a.split_whitespace().collect::<Vec<_>>());
        let lines: Vec<String> = split_lines(&chars).iter().map(|l| from_chars(l)).collect();
        assert_eq!(lines, a.lines().collect::<Vec<_>>());
        for c in [':', '|', '\n', 'a', 'é'] {
            assert_eq!(split(&chars, c), a.split(c).collect::<Vec<_>>());
            assert_eq!(replace(a, c, "<>"), a.replace(c, "<>"));
        }
        for b in SAMPLES {
            assert_eq!(same_text(a, b), a == b);
            assert_eq!(contains(a, b), a.contains(b));
            assert_eq!(starts_with(a, b), a.starts_with(b));
            assert_eq!(ends_with(a, b), a.ends_with(b));
        }
        for width in [0usize, 1, 3, 10] {
            assert_eq!(pad(a, width), format!("{:<width$}", a));
            assert_eq!(pad_left(a, width), format!("{:>width$}", a));
        }
    }
}

#[test]
fn long_texts_are_cut_between_characters() {
    for s in ["", "abc", "abcd", "éa", "aé", "a…b", "\u{10ffff}xyz"] {
        for max in 0..8usize {
            if s.len() <= max {
                assert_eq!(truncate(s, max), s);
            } else {
                let room = if max == 0 { 0 } else { max - 1 };
                let cut = (0..=room).rev().find(|k| s.is_char_boundary(*k)).unwrap();
                assert_eq!(truncate(s, max), format!("{}…", &s[..cut]));
            }
        }
    }
    assert_eq!(truncate("abcdef", 4), "abc…");
    assert_eq!(truncate("abéf", 4), "ab…");
}

#[test]
fn numbers_are_written_and_read_like_std() {
    for n in [0u64, 1, 9, 10, 42, 65535, 65536, u32::MAX as u64, u64::MAX] {
        assert_eq!(to_decimal(n), n.to_string());
        assert_eq!(read_unsigned(&to_chars(&to_decimal(n)), 10, u64::MAX), Some(n));
    }
    for n in [0i64, 1, -1, i64::MIN, i64::MAX] {
        assert_eq!(to_signed_decimal(n), n.to_string());
    }
    for s in [
        "", "+", "-", "0", "+0", "-0", "007", "12", "+12", "-12", "2147483647", "2147483648",
        "-2147483648", "-2147483649", "4294967295", "4294967296", "18446744073709551615",
        "18446744073709551616", "99999999999999999999999", "1a", " 1", "1 ", "++1", "é", "1_0",
    ] {
        let chars = to_chars(s);
        assert_eq!(read_i32(&chars), s.parse::<i32>().ok(), "{}", s);
        assert_eq!(read_unsigned(&chars, 10, u64::MAX), s.parse::<u64>().ok(), "{}", s);
        assert_eq!(
            read_unsigned(&chars, 10, u32::MAX as u64),
            s.parse::<u32>().ok().map(|n| n as u64),
            "{}",
            s
        );
    }
    for s in ["", "ff", "FF", "0100007F", "fg", "+a", "-a", "100000000", "1FFFF"] {
        let chars = to_chars(s);
        assert_eq!(
            read_unsigned(&chars, 16, u32::MAX as u64),
            u32::from_str_radix(s, 16).ok().map(|n| n as u64),
            "{}",
            s
        );
        assert_eq!(
            read_unsigned(&chars, 16, u16::MAX as u64),
            u16::from_str_radix(s, 16).ok().map(|n| n as u64),
            "{}",
            s
        );
    }
}

#[test]
fn paths_are_taken_apart_like_std() {
    for p in [
        "", "/", ".", "..", "a", "a/", "/a", "a/b", "a/.", "a/..", "a/../b", "./a", "./.", "//a//b//",
        "/tmp/x.so", "a/./", "../..", "é/…", "...", "a b/ c",
    ] {
        let expected = Path::new(p).file_name().and_then(|n| n.to_str()).map(String::from);
        assert_eq!(file_name(p), expected, "{}", p);
        for dir in ["", "/", "/var/edr", "/var/edr/", "x"] {
            assert_eq!(join(dir, p), Path::new(dir).join(p).to_str().unwrap(), "{} {}", dir, p);
        }
    }
}

#[test]
fn columns_are_quoted_where_needed() {
    assert_eq!(csv_escape(""), "");
    assert_eq!(csv_escape("plain text"), "plain text");
    assert_eq!(csv_escape("a,b"), "\"a,b\"");
    assert_eq!(csv_escape("say \"hi\""), "\"say \"\"hi\"\"\"");
    assert_eq!(csv_escape("two\nlines"), "\"two\nlines\"");
    assert_eq!(csv_escape("\""), "\"\"\"\"");
}

#[test]
fn points_in_time() {
    let epoch = Timestamp::new(0, 0).unwrap();
    assert_eq!(epoch.to_rfc3339(), "1970-01-01T00:00:00+00:00");
    let point = Timestamp::new(1_700_000_000, 123_456_789).unwrap();
    assert_eq!(point.to_rfc3339(), "2023-11-14T22:13:20.123456789+00:00");
    assert_eq!(point.format(DATE_TIME), "2023-11-14 22:13:20");
    assert_eq!(point.format(TIME_OF_DAY), "22:13:20");
    assert_eq!(point.format(DIRECTORY_STAMP), "20231114_221320.123");
    assert_eq!((point.secs(), point.nanos()), (1_700_000_000, 123_456_789));
}

#[test]
fn points_are_read_back() {
    for (secs, nanos) in [
        (0, 0),
        (-1, 999_999_999),
        (1_700_000_000, 1),
        (-62_167_219_200, 0),
        (253_402_300_799, 999_999_999),
        (59, 1_500_000_000),
    ] {
        let point = Timestamp::new(secs, nanos).unwrap();
        assert_eq!(Timestamp::from_rfc3339(&point.to_rfc3339()), Some(point), "{} {}", secs, nanos);
    }
    let shifted = Timestamp::from_rfc3339("2023-11-15T00:13:20+02:00").unwrap();
    assert_eq!(shifted, Timestamp::new(1_700_000_000, 0).unwrap());
    assert_eq!(Timestamp::from_rfc3339("2023-11-14"), None);
    assert_eq!(Timestamp::from_rfc3339(""), None);
}

#[test]
fn points_out_of_range() {
    assert!(Timestamp::new(8_210_266_876_799, 999_999_999).is_some());
    assert!(Timestamp::new(8_210_266_876_800, 0).is_none());
    assert!(Timestamp::new(-8_334_601_228_800, 0).is_some());
    assert!(Timestamp::new(-8_334_601_228_801, 0).is_none());
    assert!(Timestamp::new(0, 1_000_000_000).is_none());
    assert!(Timestamp::new(59, 1_999_999_999).is_some());
    assert!(Timestamp::new(59, 2_000_000_000).is_none());
    assert!(Timestamp::new(-1, 1_000_000_000).is_some());
}

#[test]
fn clocks_run() {
    assert!(Timestamp::now().secs() > 1_700_000_000);
    let clock = Clock::start();
    let first = clock.nanos();
    assert!(clock.nanos() >= first);
    while clock.nanos() < first + 1_000_000 {}
    assert!(clock.nanos() >= first + 1_000_000);
    assert!(Clock::start().nanos() < clock.nanos());
}
