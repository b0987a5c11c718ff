use slip_core::text::{
    begins, decimal_text, holds, join_path, join_texts, lower, parse_signed, parse_unsigned, replace, split_at,
    split_lines, trim,
};
use slip_core::time::{Duration, Timestamp};

#[test]
fn texts_are_cut_as_the_standard_cuts_them() {
    for s in ["", "a", "a\n", "a\r\nb", "\n\n", "a\rb", "\r\n", "a\n\r", "x\n y \n"] {
        assert_eq!(split_lines(s), s.lines().map(|l| l.to_string()).collect::<Vec<String>>(), "{s:?}");
        assert_eq!(trim(s), s.trim());
    }
    for s in ["", "a", "a/b", "/", "a//b", "/a/"] {
        assert_eq!(split_at(s, '/'), s.split('/').map(|l| l.to_string()).collect::<Vec<String>>());
    }
    assert_eq!(trim("\u{a0}\u{3000} x\u{85}"), "x");
    assert_eq!(lower("AbÄ"), "abÄ");
}

#[test]
fn texts_are_searched_and_replaced() {
    for (s, pat, with) in [("aaa", "aa", "b"), ("a_b_c", "_", "-"), ("abc", "x", "y"), ("", "a", "b"), ("${tag}", "${tag}", "v1")] {
        assert_eq!(replace(s, pat, with), s.replace(pat, with));
        assert_eq!(holds(s, pat), s.contains(pat));
        assert_eq!(begins(s, pat), s.starts_with(pat));
    }
    assert_eq!(join_texts(&vec!["a".to_string(), "b".to_string()], ", "), "a, b");
    assert_eq!(join_path("/a", "b"), "/a/b");
    assert_eq!(join_path("/a/", "b"), "/a/b");
    assert_eq!(join_path("/a", "/b"), "/b");
}

#[test]
fn numbers_are_read_and_written() {
    for s in ["0", "42", "+7", "-7", "", "+", "-", " 1", "1 ", "007", "65535", "65536", "99999999999999999999", "1_0"] {
        assert_eq!(parse_unsigned(s, 65535).map(|n| n as u16), s.parse::<u16>().ok(), "{s:?}");
        assert_eq!(parse_signed(s), s.parse::<i64>().ok(), "{s:?}");
    }
    for s in ["-9223372036854775808", "-9223372036854775809", "9223372036854775807", "9223372036854775808"] {
        assert_eq!(parse_signed(s), s.parse::<i64>().ok(), "{s:?}");
    }
    assert_eq!(decimal_text(0), "0");
    assert_eq!(decimal_text(u64::MAX), "18446744073709551615");
}

#[test]
fn time_is_counted_in_seconds_and_nanoseconds() {
    assert_eq!(Duration::from_millis(1500).as_secs(), 1);
    assert_eq!(Duration::from_millis(1500).subsec_nanos(), 500_000_000);
    assert!(Duration::from_parts(1, 1_000_000_000).is_none());
    let t = Timestamp { secs: -1, nanos: 500_000_000 };
    assert_eq!(t.plus(1, 500_000_000), Some(Timestamp { secs: 1, nanos: 0 }));
    assert_eq!(t.plus(i64::MAX, 0), None);
    assert!(t.not_after(&Timestamp { secs: -1, nanos: 500_000_000 }));
    assert!(!t.not_after(&Timestamp { secs: -1, nanos: 499_999_999 }));
}
