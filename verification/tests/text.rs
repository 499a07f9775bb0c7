use interlinked::text::{
    contains_str, format_i32, format_u64, parse_i32, parse_u32, parse_unsigned_at_most,
    parse_usize, starts_with_zeros, str_equal, trim_end_slashes,
};

#[test]
fn formats_unsigned_numbers() {
    assert_eq!(format_u64(0), "0");
    assert_eq!(format_u64(7), "7");
    assert_eq!(format_u64(120), "120");
    assert_eq!(format_u64(u64::MAX), u64::MAX.to_string());
}

#[test]
fn formats_signed_numbers() {
    assert_eq!(format_i32(0), "0");
    assert_eq!(format_i32(42), "42");
    assert_eq!(format_i32(-42), "-42");
    assert_eq!(format_i32(i32::MIN), "-2147483648");
    assert_eq!(format_i32(i32::MAX), "2147483647");
}

#[test]
fn parses_i32_as_std_does() {
    let cases = [
        "0", "+5", "-0", "", "+", "-", "2147483647", "2147483648", "-2147483648",
        "-2147483649", "12a", " 1", "007", "--1", "+-1", "1_0", "99999999999999999999",
    ];
    for c in cases {
        assert_eq!(parse_i32(c), c.parse::<i32>().ok(), "input {c:?}");
    }
}

#[test]
fn parses_u32_as_std_does() {
    let cases = ["0", "+7", "-0", "-1", "", "+", "4294967295", "4294967296", "08", "x"];
    for c in cases {
        assert_eq!(parse_u32(c), c.parse::<u32>().ok(), "input {c:?}");
    }
}

#[test]
fn parses_usize_as_std_does() {
    let max = usize::MAX.to_string();
    let over = format!("{}0", usize::MAX);
    let cases = ["3", "+3", "", "-3", max.as_str(), over.as_str()];
    for c in cases {
        assert_eq!(parse_usize(c), c.parse::<usize>().ok(), "input {c:?}");
    }
}

#[test]
fn bounded_parse_refuses_values_above_the_bound() {
    assert_eq!(parse_unsigned_at_most("10", 10), Some(10));
    assert_eq!(parse_unsigned_at_most("11", 10), None);
}

#[test]
fn formatted_numbers_read_back() {
    for v in [0i32, 1, -1, 9, 10, -10, 123456, i32::MIN, i32::MAX] {
        assert_eq!(parse_i32(&format_i32(v)), Some(v));
    }
    for v in [0u32, 1, 10, 4294967295] {
        assert_eq!(parse_u32(&format_u64(v as u64)), Some(v));
    }
}

#[test]
fn checks_leading_zeros() {
    assert!(starts_with_zeros("00ab", 2));
    assert!(!starts_with_zeros("00ab", 3));
    assert!(starts_with_zeros("", 0));
    assert!(!starts_with_zeros("0", 2));
    assert!(starts_with_zeros("anything", 0));
}

#[test]
fn trims_trailing_slashes() {
    assert_eq!(trim_end_slashes("http://localhost:8080/"), "http://localhost:8080");
    assert_eq!(trim_end_slashes("a///"), "a");
    assert_eq!(trim_end_slashes("///"), "");
    assert_eq!(trim_end_slashes(""), "");
    assert_eq!(trim_end_slashes("a/b"), "a/b");
    let once = trim_end_slashes("x//");
    assert_eq!(trim_end_slashes(&once), once);
}

#[test]
fn finds_substrings() {
    assert!(contains_str("text/html,application/xhtml+xml", "text/html"));
    assert!(contains_str("a, text/html", "text/html"));
    assert!(!contains_str("application/json", "text/html"));
    assert!(contains_str("abc", ""));
    assert!(!contains_str("", "a"));
}

#[test]
fn compares_strings() {
    assert!(str_equal("link", "link"));
    assert!(!str_equal("link", "note"));
    assert!(!str_equal("link", "lin"));
}
