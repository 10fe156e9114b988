use calendar_server::text::{
    decimal, last_segment, parse_id, same_header_name, same_text, starts_with,
};

#[test]
fn parse_id_reads_plain_digits() {
    assert_eq!(parse_id("1"), Some(1));
    assert_eq!(parse_id("42"), Some(42));
    assert_eq!(parse_id("007"), Some(7));
    assert_eq!(parse_id("0"), Some(0));
}

#[test]
fn parse_id_accepts_one_leading_plus() {
    assert_eq!(parse_id("+7"), Some(7));
    assert_eq!(parse_id("++7"), None);
    assert_eq!(parse_id("+"), None);
}

#[test]
fn parse_id_refuses_what_is_no_number() {
    assert_eq!(parse_id(""), None);
    assert_eq!(parse_id("abc"), None);
    assert_eq!(parse_id("-1"), None);
    assert_eq!(parse_id("1a"), None);
    assert_eq!(parse_id("1 "), None);
    assert_eq!(parse_id("1.5"), None);
}

#[test]
fn parse_id_stops_at_thirty_two_bits() {
    assert_eq!(parse_id("4294967295"), Some(u32::MAX));
    assert_eq!(parse_id("4294967296"), None);
    assert_eq!(parse_id("99999999999999999999999999"), None);
}

#[test]
fn parse_id_agrees_with_std() {
    let cases = ["5", "+5", "-5", "", "x", "00012", "4294967295", "4294967296", "1_000"];
    for c in cases {
        assert_eq!(parse_id(c), c.parse::<u32>().ok());
    }
}

#[test]
fn last_segment_follows_the_last_slash() {
    assert_eq!(last_segment("/api/calendar/task/12"), "12");
    assert_eq!(last_segment("/api/calendar/task/"), "");
    assert_eq!(last_segment("/api/calendar/task/a/3"), "3");
    assert_eq!(last_segment("plain"), "plain");
    assert_eq!(last_segment(""), "");
    assert_eq!(last_segment("/é/ü"), "ü");
}

#[test]
fn decimal_writes_without_leading_zeros() {
    assert_eq!(decimal(0), "0");
    assert_eq!(decimal(7), "7");
    assert_eq!(decimal(10), "10");
    assert_eq!(decimal(1234567890), "1234567890");
    assert_eq!(decimal(u32::MAX), "4294967295");
}

#[test]
fn decimal_round_trips_through_parse_id() {
    for n in [0u32, 1, 9, 10, 99, 100, 65535, u32::MAX] {
        assert_eq!(parse_id(&decimal(n)), Some(n));
    }
}

#[test]
fn same_text_and_starts_with() {
    assert!(same_text("abc", "abc"));
    assert!(!same_text("abc", "abd"));
    assert!(!same_text("abc", "ab"));
    assert!(starts_with("/api/calendar/task/1", "/api/calendar/task/"));
    assert!(starts_with("abc", ""));
    assert!(starts_with("abc", "abc"));
    assert!(!starts_with("ab", "abc"));
    assert!(!starts_with("/api/calendar/task", "/api/calendar/task/"));
}

#[test]
fn header_names_compare_without_ascii_case() {
    assert!(same_header_name("Content-Type", "content-type"));
    assert!(same_header_name("CONTENT-TYPE", "Content-Type"));
    assert!(same_header_name("", ""));
    assert!(same_header_name("x-1", "X-1"));
    assert!(!same_header_name("Content-Type", "Content-Typ"));
    assert!(!same_header_name("Content-Type", "Content_Type"));
    assert!(!same_header_name("@", "`"));
    assert!(!same_header_name("[", "{"));
    assert!(!same_header_name("É", "é"));
}
