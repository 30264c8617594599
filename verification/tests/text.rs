use s3insqlite::models::config::AppConfig;
use s3insqlite::utils::hash::content_hash;
use s3insqlite::utils::text::{
    chars_of, decimal_string, find_from, parse_i32, push_decimal, push_element,
    push_signed_decimal, starts_with, string_of, xml_escaped,
};
use s3insqlite::utils::time::{http_time_text, listing_time_text};

fn chars(s: &str) -> Vec<char> {
    s.chars().collect()
}

#[test]
fn decimal_of_small_and_large_numbers() {
    assert_eq!(decimal_string(0), "0");
    assert_eq!(decimal_string(7), "7");
    assert_eq!(decimal_string(10), "10");
    assert_eq!(decimal_string(1234567890), "1234567890");
    assert_eq!(decimal_string(u64::MAX), "18446744073709551615");
}

#[test]
fn decimal_is_appended() {
    let mut s = String::from("n=");
    push_decimal(&mut s, 405);
    assert_eq!(s, "n=405");
}

#[test]
fn signed_decimal_of_negative_numbers() {
    let mut s = String::new();
    push_signed_decimal(&mut s, -1);
    assert_eq!(s, "-1");
    let mut s = String::new();
    push_signed_decimal(&mut s, i64::MIN);
    assert_eq!(s, "-9223372036854775808");
    let mut s = String::new();
    push_signed_decimal(&mut s, 2147483647);
    assert_eq!(s, "2147483647");
    let mut s = String::new();
    push_signed_decimal(&mut s, 0);
    assert_eq!(s, "0");
}

#[test]
fn escape_replaces_the_five_reserved_characters() {
    assert_eq!(xml_escaped("a&b<c>d\"e'f"), "a&amp;b&lt;c&gt;d&quot;e&apos;f");
    assert_eq!(xml_escaped("plain/key.txt"), "plain/key.txt");
    assert_eq!(xml_escaped(""), "");
    assert_eq!(xml_escaped("&amp;"), "&amp;amp;");
    assert_eq!(xml_escaped("\u{e9}\u{4e2d}"), "\u{e9}\u{4e2d}");
}

#[test]
fn element_wraps_escaped_text() {
    let mut s = String::new();
    push_element(&mut s, "Key", "a<b");
    assert_eq!(s, "<Key>a&lt;b</Key>");
}

#[test]
fn characters_and_back() {
    let v = chars_of("h\u{e9}llo");
    assert_eq!(v, chars("h\u{e9}llo"));
    assert_eq!(string_of(&v, 1, 3), "\u{e9}l");
    assert_eq!(string_of(&v, 2, 2), "");
}

#[test]
fn prefix_test_is_exact() {
    assert!(starts_with(&chars("abc"), &chars("")));
    assert!(starts_with(&chars("abc"), &chars("ab")));
    assert!(starts_with(&chars("abc"), &chars("abc")));
    assert!(!starts_with(&chars("abc"), &chars("abcd")));
    assert!(!starts_with(&chars("abc"), &chars("b")));
    assert!(!starts_with(&chars("Abc"), &chars("a")));
}

#[test]
fn find_gives_the_first_position_after_the_start() {
    assert_eq!(find_from(&chars("a/b/c"), 0, '/'), Some(1));
    assert_eq!(find_from(&chars("a/b/c"), 2, '/'), Some(1));
    assert_eq!(find_from(&chars("a/b/c"), 4, '/'), None);
    assert_eq!(find_from(&chars("a/b/c"), 5, '/'), None);
    assert_eq!(find_from(&chars("/x"), 0, '/'), Some(0));
}

#[test]
fn content_hash_is_md5_in_hex() {
    assert_eq!(content_hash(b""), "d41d8cd98f00b204e9800998ecf8427e");
    assert_eq!(content_hash(b"hello"), "5d41402abc4b2a76b9719d911017c592");
    assert_eq!(
        content_hash(b"The quick brown fox jumps over the lazy dog"),
        "9e107d9d372bb6826bd81d3542a419d6"
    );
    assert_eq!(content_hash(&[0u8, 255u8]).len(), 32);
}

#[test]
fn listing_time_is_rfc3339_with_milliseconds() {
    assert_eq!(listing_time_text(0), "1970-01-01T00:00:00.000Z");
    assert_eq!(listing_time_text(1431648000), "2015-05-15T00:00:00.000Z");
    assert_eq!(listing_time_text(-1), "1969-12-31T23:59:59.000Z");
}

#[test]
fn listing_time_of_no_instant_is_empty() {
    assert_eq!(listing_time_text(i64::MAX), "");
    assert_eq!(listing_time_text(i64::MIN), "");
}

#[test]
fn header_time_is_rfc2822() {
    assert_eq!(http_time_text(0), Some("Thu, 1 Jan 1970 00:00:00 +0000".to_string()));
    assert_eq!(http_time_text(1431648000), Some("Fri, 15 May 2015 00:00:00 +0000".to_string()));
    assert_eq!(
        http_time_text(253_402_300_799),
        Some("Fri, 31 Dec 9999 23:59:59 +0000".to_string())
    );
}

#[test]
fn header_time_outside_the_range_is_none() {
    assert_eq!(http_time_text(-1), None);
    assert_eq!(http_time_text(253_402_300_800), None);
    assert_eq!(http_time_text(i64::MAX), None);
}

fn config() -> AppConfig {
    AppConfig {
        database_path: "s3.db".to_string(),
        buckets: vec!["a".to_string()],
        port: 9000,
        bind_address: "127.0.0.1".to_string(),
        log_path: "s3.log".to_string(),
        log_level: "info".to_string(),
        max_workers: None,
        max_object_size: None,
        db_pool_max_size: None,
        db_pool_min_idle: None,
        db_pool_timeout_seconds: None,
    }
}

#[test]
fn config_defaults() {
    let c = config();
    assert_eq!(c.get_max_object_size(), 1024 * 1024 * 1024);
    assert_eq!(c.get_db_pool_max_size(), 8);
    assert_eq!(c.get_db_pool_min_idle(), 2);
    assert_eq!(c.get_db_pool_timeout_seconds(), 30);
    assert_eq!(c.max_workers_or(3), 3);
    assert!(c.get_max_workers() >= 1);
}

#[test]
fn config_values_win_over_defaults() {
    let mut c = config();
    c.max_workers = Some(4);
    c.max_object_size = Some(10);
    c.db_pool_max_size = Some(1);
    c.db_pool_min_idle = Some(0);
    c.db_pool_timeout_seconds = Some(5);
    assert_eq!(c.get_max_workers(), 4);
    assert_eq!(c.max_workers_or(9), 4);
    assert_eq!(c.get_max_object_size(), 10);
    assert_eq!(c.get_db_pool_max_size(), 1);
    assert_eq!(c.get_db_pool_min_idle(), 0);
    assert_eq!(c.get_db_pool_timeout_seconds(), 5);
}

#[test]
fn numbers_are_parsed() {
    assert_eq!(parse_i32("0"), Some(0));
    assert_eq!(parse_i32("1000"), Some(1000));
    assert_eq!(parse_i32("+5"), Some(5));
    assert_eq!(parse_i32("-5"), Some(-5));
    assert_eq!(parse_i32("-0"), Some(0));
    assert_eq!(parse_i32("007"), Some(7));
    assert_eq!(parse_i32("2147483647"), Some(i32::MAX));
    assert_eq!(parse_i32("-2147483648"), Some(i32::MIN));
    assert_eq!(parse_i32("0000000000002147483647"), Some(i32::MAX));
}

#[test]
fn what_is_no_number_is_not_parsed() {
    assert_eq!(parse_i32(""), None);
    assert_eq!(parse_i32("+"), None);
    assert_eq!(parse_i32("-"), None);
    assert_eq!(parse_i32("--1"), None);
    assert_eq!(parse_i32("+-1"), None);
    assert_eq!(parse_i32("1-"), None);
    assert_eq!(parse_i32(" 1"), None);
    assert_eq!(parse_i32("1 "), None);
    assert_eq!(parse_i32("1_000"), None);
    assert_eq!(parse_i32("12a"), None);
    assert_eq!(parse_i32("1.0"), None);
    assert_eq!(parse_i32("\u{663}"), None);
    assert_eq!(parse_i32("2147483648"), None);
    assert_eq!(parse_i32("-2147483649"), None);
    assert_eq!(parse_i32("99999999999999999999999999"), None);
    assert_eq!(parse_i32("9999999999999999999999999x"), None);
}

#[test]
fn parsing_agrees_with_the_standard_parser() {
    for text in ["", "0", "-1", "+1", "+", "-", "42", "0042", "2147483647", "2147483648",
        "-2147483648", "-2147483649", "4294967296", "1e3", "0x10", "٣", " 5", "5\n"]
    {
        assert_eq!(parse_i32(text), text.parse::<i32>().ok());
    }
}
