use sse_chat::format_reply;
use sse_chat::parse_subscriber_id;
use sse_chat::u64_to_dec;

#[test]
fn decimal_of_zero() {
    assert_eq!(u64_to_dec(0), "0");
}

#[test]
fn decimal_of_small_numbers() {
    assert_eq!(u64_to_dec(7), "7");
    assert_eq!(u64_to_dec(10), "10");
    assert_eq!(u64_to_dec(42), "42");
    assert_eq!(u64_to_dec(1234567890), "1234567890");
}

#[test]
fn decimal_of_largest_identity() {
    assert_eq!(u64_to_dec(u64::MAX), "18446744073709551615");
}

#[test]
fn reply_line_is_attributed_literally() {
    assert_eq!(format_reply(1, "hi"), "<User#1>: hi");
    assert_eq!(format_reply(23, "still here"), "<User#23>: still here");
    assert_eq!(format_reply(5, ""), "<User#5>: ");
}

#[test]
fn parse_accepts_plain_digits() {
    assert_eq!(parse_subscriber_id("0"), Some(0));
    assert_eq!(parse_subscriber_id("42"), Some(42));
    assert_eq!(parse_subscriber_id("007"), Some(7));
    assert_eq!(parse_subscriber_id("18446744073709551615"), Some(u64::MAX));
}

#[test]
fn parse_rejects_malformed_segments() {
    assert_eq!(parse_subscriber_id(""), None);
    assert_eq!(parse_subscriber_id("a"), None);
    assert_eq!(parse_subscriber_id("1a"), None);
    assert_eq!(parse_subscriber_id("+5"), None);
    assert_eq!(parse_subscriber_id(" 1"), None);
    assert_eq!(parse_subscriber_id("-1"), None);
    assert_eq!(parse_subscriber_id("4.2"), None);
}

#[test]
fn parse_rejects_overflowing_values() {
    assert_eq!(parse_subscriber_id("18446744073709551616"), None);
    assert_eq!(parse_subscriber_id("99999999999999999999999"), None);
}

#[test]
fn parse_inverts_formatting() {
    for n in [0u64, 1, 9, 10, 99, 100, 65537, u64::MAX] {
        let s = u64_to_dec(n);
        assert_eq!(parse_subscriber_id(&s), Some(n));
    }
}
