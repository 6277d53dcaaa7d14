use oss_explorer::rate_limit::{
    parse_unsigned, rate_limit_from_headers, ClockTime, RateLimitInfo, RateLimitLevel,
};

#[test]
fn headers_give_a_snapshot() {
    let r = rate_limit_from_headers(Some("60"), Some("59"), Some("1700000000"));
    assert_eq!(
        r,
        Some(RateLimitInfo { limit: 60, remaining: 59, reset_timestamp: 1700000000 })
    );
}

#[test]
fn missing_or_zero_limit_gives_none() {
    assert_eq!(rate_limit_from_headers(None, Some("5"), Some("100")), None);
    assert_eq!(rate_limit_from_headers(Some("0"), Some("5"), Some("100")), None);
    assert_eq!(rate_limit_from_headers(Some("sixty"), Some("5"), Some("100")), None);
}

#[test]
fn unreadable_remaining_and_reset_read_as_zero() {
    let r = rate_limit_from_headers(Some("60"), None, Some("x"));
    assert_eq!(r, Some(RateLimitInfo { limit: 60, remaining: 0, reset_timestamp: 0 }));
}

#[test]
fn numbers_parse_as_std_does() {
    assert_eq!(parse_unsigned("42", u32::MAX as u64), Some(42));
    assert_eq!(parse_unsigned("+7", u32::MAX as u64), Some(7));
    assert_eq!(parse_unsigned("007", u32::MAX as u64), Some(7));
    assert_eq!(parse_unsigned("4294967295", u32::MAX as u64), Some(4294967295));
    assert_eq!(parse_unsigned("4294967296", u32::MAX as u64), None);
    assert_eq!(parse_unsigned("18446744073709551615", u64::MAX), Some(u64::MAX));
    assert_eq!(parse_unsigned("18446744073709551616", u64::MAX), None);
    for bad in ["", "+", "-1", " 1", "1 ", "1a", "++1"] {
        assert_eq!(parse_unsigned(bad, u64::MAX), None, "{bad:?}");
        assert_eq!(bad.parse::<u64>().ok(), None);
    }
}

#[test]
fn levels() {
    let info = |remaining| RateLimitInfo { limit: 60, remaining, reset_timestamp: 0 };
    assert_eq!(info(60).level(), RateLimitLevel::Normal);
    assert_eq!(info(31).level(), RateLimitLevel::Normal);
    assert_eq!(info(30).level(), RateLimitLevel::Warning);
    assert_eq!(info(13).level(), RateLimitLevel::Warning);
    assert_eq!(info(12).level(), RateLimitLevel::Danger);
    assert_eq!(info(0).level(), RateLimitLevel::Danger);
}

#[test]
fn reset_time_shown_below_ten() {
    let info = |remaining| RateLimitInfo { limit: 60, remaining, reset_timestamp: 0 };
    assert!(info(9).shows_reset_time());
    assert!(!info(10).shows_reset_time());
}

#[test]
fn clock_format() {
    assert_eq!(ClockTime { hours: 9, minutes: 5 }.format(), "09:05");
    assert_eq!(ClockTime { hours: 23, minutes: 59 }.format(), "23:59");
    assert_eq!(ClockTime { hours: 0, minutes: 0 }.format(), "00:00");
}
