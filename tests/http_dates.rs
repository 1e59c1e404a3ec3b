use sentry_transport::httpdate::parse_http_date;
use sentry_transport::ratelimit::RateLimiter;

fn date(s: &str) -> Option<u64> {
    let v: Vec<char> = s.chars().collect();
    parse_http_date(&v)
}

#[test]
fn reads_preferred_http_dates() {
    assert_eq!(date("Thu, 01 Jan 1970 00:00:00 GMT"), Some(0));
    assert_eq!(date("Sun, 06 Nov 1994 08:49:37 GMT"), Some(784_111_777));
    assert_eq!(date("Wed, 21 Oct 2015 07:28:00 GMT"), Some(1_445_412_480));
    assert_eq!(date("Tue, 29 Feb 2000 00:00:00 GMT"), Some(951_782_400));
    assert_eq!(date("Fri, 31 Dec 9999 23:59:59 GMT"), Some(253_402_300_799));
}

#[test]
fn reads_obsolete_http_date_forms() {
    assert_eq!(date("Sunday, 06-Nov-94 08:49:37 GMT"), Some(784_111_777));
    assert_eq!(date("Wednesday, 21-Oct-15 07:28:00 GMT"), Some(1_445_412_480));
    assert_eq!(date("Friday, 01-Jan-21 00:00:00 GMT"), Some(1_609_459_200));
    assert_eq!(date("Sun Nov  6 08:49:37 1994"), Some(784_111_777));
    assert_eq!(date("Wed Oct 21 07:28:00 2015"), Some(1_445_412_480));
}

#[test]
fn rejects_malformed_http_dates() {
    assert_eq!(date("Sun, 29 Feb 2021 00:00:00 GMT"), None);
    assert_eq!(date("Sun, 06 Nov 1994 24:00:00 GMT"), None);
    assert_eq!(date("Sun, 06 Nov 1994 08:60:00 GMT"), None);
    assert_eq!(date("Sun, 06 Xyz 1994 08:49:37 GMT"), None);
    assert_eq!(date("Sun, 06 Nov 1969 08:49:37 GMT"), None);
    assert_eq!(date("Sun, 06 Nov 1994 08:49:37 UTC"), None);
    assert_eq!(date("Abc, 06 Nov 1994 08:49:37 GMT"), None);
    assert_eq!(date("Sunday, 06-Nov-94 08:49:37"), None);
    assert_eq!(date("Sundae, 06-Nov-94 08:49:37 GMT"), None);
    assert_eq!(date("Sun Nov  6 08:49:37 94"), None);
    assert_eq!(date("Sun Nov 31 08:49:37 1994"), None);
    assert_eq!(date(""), None);
}

#[test]
fn retry_after_date_sets_absolute_reset() {
    let mut rl = RateLimiter::new();
    rl.update_from_retry_after("Wed, 21 Oct 2015 07:28:00 GMT", 1_445_412_000);
    assert_eq!(rl.global, Some(1_445_412_480));
    let mut rl = RateLimiter::new();
    rl.update_from_response(429, None, Some("Sun, 30 Feb 2015 07:28:00 GMT".to_string()), 10);
    assert_eq!(rl.global, Some(70));
    let mut rl = RateLimiter::new();
    rl.update_from_retry_after("Sunday, 06-Nov-94 08:49:37 GMT", 0);
    assert_eq!(rl.global, Some(784_111_777));
    let mut rl = RateLimiter::new();
    rl.update_from_response(429, None, Some("Sun Nov  6 08:49:37 1994".to_string()), 0);
    assert_eq!(rl.global, Some(784_111_777));
}
