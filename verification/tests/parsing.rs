use query_fetch::decimal_string;
use query_fetch::parse_decimal;
use query_fetch::QuerySignal;

#[test]
fn parse_plain_digits() {
    assert_eq!(parse_decimal("7"), Some(7));
    assert_eq!(parse_decimal("0"), Some(0));
    assert_eq!(parse_decimal("007"), Some(7));
}

#[test]
fn parse_signed() {
    assert_eq!(parse_decimal("+42"), Some(42));
    assert_eq!(parse_decimal("-3"), Some(-3));
    assert_eq!(parse_decimal("-0"), Some(0));
}

#[test]
fn parse_rejects_malformed() {
    assert_eq!(parse_decimal(""), None);
    assert_eq!(parse_decimal("abc"), None);
    assert_eq!(parse_decimal("7a"), None);
    assert_eq!(parse_decimal(" 7"), None);
    assert_eq!(parse_decimal("-"), None);
    assert_eq!(parse_decimal("+"), None);
    assert_eq!(parse_decimal("--1"), None);
    assert_eq!(parse_decimal("7."), None);
    assert_eq!(parse_decimal("\u{0967}2"), None);
}

#[test]
fn parse_range_limits() {
    assert_eq!(parse_decimal("2147483647"), Some(i32::MAX));
    assert_eq!(parse_decimal("-2147483648"), Some(i32::MIN));
    assert_eq!(parse_decimal("2147483648"), None);
    assert_eq!(parse_decimal("-2147483649"), None);
    assert_eq!(parse_decimal("99999999999999999999"), None);
}

#[test]
fn parse_agrees_with_std() {
    let samples = [
        "", "0", "7", "+7", "-7", "007", "2147483647", "2147483648", "-2147483648",
        "-2147483649", "abc", "7a", " 7", "7 ", "-", "+", "++1", "0x10", "1e3",
    ];
    for s in samples {
        assert_eq!(parse_decimal(s), s.parse::<i32>().ok(), "input {:?}", s);
    }
}

#[test]
fn format_canonical() {
    assert_eq!(decimal_string(0), "0");
    assert_eq!(decimal_string(7), "7");
    assert_eq!(decimal_string(-12), "-12");
    assert_eq!(decimal_string(i32::MAX), "2147483647");
    assert_eq!(decimal_string(i32::MIN), "-2147483648");
}

#[test]
fn query_write_read_roundtrip() {
    let mut q = QuerySignal::new();
    q.write("7");
    assert_eq!(q.read(), Some(7));
    assert_eq!(q.param_text().as_deref(), Some("7"));
}

#[test]
fn query_write_failure_clears() {
    let mut q = QuerySignal::new();
    q.write("7");
    q.write("abc");
    assert_eq!(q.read(), None);
    assert!(q.param_text().is_none());
}

#[test]
fn query_write_idempotent() {
    let mut once = QuerySignal::new();
    once.write("3");
    let mut twice = QuerySignal::new();
    twice.write("3");
    twice.write("3");
    assert_eq!(once.read(), twice.read());
    assert_eq!(once.param_text(), twice.param_text());
}

#[test]
fn query_write_canonicalizes_param() {
    let mut q = QuerySignal::new();
    q.write("+007");
    assert_eq!(q.read(), Some(7));
    assert_eq!(q.param_text().as_deref(), Some("7"));
}

#[test]
fn query_from_param() {
    let q = QuerySignal::from_param(Some("5"));
    assert_eq!(q.read(), Some(5));
    let q = QuerySignal::from_param(Some("abc"));
    assert_eq!(q.read(), None);
    let q = QuerySignal::from_param(None);
    assert_eq!(q.read(), None);
    assert!(q.param_text().is_none());
}
