use sentry_transport::ratelimit::{
    classify_response, RateLimitUpdate, RateLimiter, RateLimitingCategory, DEFAULT_RETRY_AFTER_SECS,
};

const NOW: u64 = 1_000;

fn fresh() -> RateLimiter {
    RateLimiter::new()
}

#[test]
fn sentry_header_limits_each_named_category() {
    let mut rl = fresh();
    rl.update_from_response(200, Some("60:error, 120:transaction".to_string()), Some("30".to_string()), NOW);
    assert_eq!(rl.error, Some(NOW + 60));
    assert_eq!(rl.transaction, Some(NOW + 120));
    assert_eq!(rl.global, None);
    assert_eq!(rl.session, None);
    assert!(rl.is_disabled(RateLimitingCategory::Error, NOW + 59));
    assert!(!rl.is_disabled(RateLimitingCategory::Error, NOW + 60));
    assert!(rl.is_disabled(RateLimitingCategory::Transaction, NOW + 119));
    assert!(!rl.is_disabled(RateLimitingCategory::Session, NOW));
}

#[test]
fn sentry_header_wins_over_status_429() {
    let mut rl = fresh();
    rl.update_from_response(429, Some("60:error".to_string()), None, NOW);
    assert_eq!(rl.global, None);
    assert_eq!(rl.error, Some(NOW + 60));
}

#[test]
fn retry_after_limits_every_category() {
    let mut rl = fresh();
    rl.update_from_response(200, None, Some("30".to_string()), NOW);
    assert_eq!(rl.global, Some(NOW + 30));
    assert!(rl.is_disabled(RateLimitingCategory::Error, NOW + 29));
    assert!(rl.is_disabled(RateLimitingCategory::Any, NOW));
    assert!(!rl.is_disabled(RateLimitingCategory::Attachment, NOW + 30));
}

#[test]
fn retry_after_wins_over_status_429() {
    let mut rl = fresh();
    rl.update_from_response(429, None, Some(" 5 ".to_string()), NOW);
    assert_eq!(rl.global, Some(NOW + 5));
}

#[test]
fn unreadable_retry_after_uses_default_delay() {
    let mut rl = fresh();
    rl.update_from_retry_after("soon", NOW);
    assert_eq!(rl.global, Some(NOW + DEFAULT_RETRY_AFTER_SECS));
}

#[test]
fn bare_429_applies_default_delay() {
    let mut rl = fresh();
    rl.update_from_response(429, None, None, NOW);
    assert_eq!(DEFAULT_RETRY_AFTER_SECS, 60);
    assert_eq!(rl.global, Some(NOW + 60));
    assert!(rl.is_disabled(RateLimitingCategory::Session, NOW + 59));
}

#[test]
fn plain_success_changes_nothing() {
    let mut rl = fresh();
    rl.update_from_response(200, None, None, NOW);
    assert_eq!(rl, fresh());
    rl.update_from_response(500, None, None, NOW);
    assert_eq!(rl, fresh());
}

#[test]
fn classification_follows_precedence() {
    assert!(matches!(
        classify_response(429, Some("1:error".to_string()), Some("2".to_string())),
        RateLimitUpdate::SentryHeader(h) if h == "1:error"
    ));
    assert!(matches!(
        classify_response(429, None, Some("2".to_string())),
        RateLimitUpdate::RetryAfter(h) if h == "2"
    ));
    assert!(matches!(classify_response(429, None, None), RateLimitUpdate::TooManyRequests));
    assert!(matches!(classify_response(200, None, None), RateLimitUpdate::Unchanged));
}

#[test]
fn empty_category_list_limits_everything() {
    let mut rl = fresh();
    rl.update_from_sentry_header("10::organization", NOW);
    assert_eq!(rl.global, Some(NOW + 10));
    assert_eq!(rl.error, None);
}

#[test]
fn several_categories_and_scope_in_one_entry() {
    let mut rl = fresh();
    rl.update_from_sentry_header("7:session;attachment;unknown:key, 3:error", NOW);
    assert_eq!(rl.session, Some(NOW + 7));
    assert_eq!(rl.attachment, Some(NOW + 7));
    assert_eq!(rl.error, Some(NOW + 3));
    assert_eq!(rl.global, None);
    assert_eq!(rl.transaction, None);
}

#[test]
fn later_entry_overwrites_earlier_one() {
    let mut rl = fresh();
    rl.update_from_sentry_header("50:error,5:error", NOW);
    assert_eq!(rl.error, Some(NOW + 5));
}

#[test]
fn malformed_entries_are_ignored() {
    let mut rl = fresh();
    rl.update_from_sentry_header("abc:error, 10, :session, 4.x:transaction, 9:attachment", NOW);
    assert_eq!(rl.error, None);
    assert_eq!(rl.session, None);
    assert_eq!(rl.transaction, None);
    assert_eq!(rl.global, None);
    assert_eq!(rl.attachment, Some(NOW + 9));
}

#[test]
fn huge_delay_saturates() {
    let mut rl = fresh();
    rl.update_from_sentry_header("99999999999999999999999:error", NOW);
    assert_eq!(rl.error, Some(u64::MAX));
    rl.update_from_429(u64::MAX - 1);
    assert_eq!(rl.global, Some(u64::MAX));
}

#[test]
fn expired_limit_is_inert() {
    let mut rl = fresh();
    rl.update_from_429(NOW);
    assert!(rl.is_disabled(RateLimitingCategory::Error, NOW));
    assert!(!rl.is_disabled(RateLimitingCategory::Error, NOW + 60));
    assert!(!rl.is_disabled(RateLimitingCategory::Any, NOW + 1000));
}

#[test]
fn fractional_delays_round_up() {
    let mut rl = fresh();
    rl.update_from_sentry_header("4.5:transaction, 2.0:error, 3.:session", NOW);
    assert_eq!(rl.transaction, Some(NOW + 5));
    assert_eq!(rl.error, Some(NOW + 2));
    assert_eq!(rl.session, Some(NOW + 3));
    rl.update_from_retry_after("0.25", NOW);
    assert_eq!(rl.global, Some(NOW + 1));
}
