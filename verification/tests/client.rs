use github_ranked::error::ApiError;
use github_ranked::github::client::{
    after_failure, backoff, classify, judge_response, judge_status, parse_retry_after,
    parse_rfc3339_epoch, quota_report_at, settle_payload, GraphQlError, QuotaReport, RateLimit,
    RetryStep, Verdict, MAX_ATTEMPTS, MAX_BACKOFF_MILLIS,
};
use std::time::Duration;

fn backoff_duration(attempt: u32) -> Duration {
    Duration::from_millis(backoff(attempt))
}

#[test]
fn parses_github_reset_timestamps() {
    assert_eq!(parse_rfc3339_epoch("1970-01-01T00:00:00Z"), Some(0));
    assert_eq!(parse_rfc3339_epoch("2026-08-28T15:04:05Z"), Some(1787929445));
    // Leap day, and a leap-year boundary.
    assert_eq!(parse_rfc3339_epoch("2024-02-29T00:00:00Z"), Some(1709164800));
    assert_eq!(parse_rfc3339_epoch("2000-03-01T00:00:00Z"), Some(951868800));
    // Past the 32-bit cliff, since these are reset times in the future.
    assert_eq!(parse_rfc3339_epoch("2038-01-19T03:14:07Z"), Some(2147483647));
}

#[test]
fn rejects_timestamps_it_cannot_trust() {
    assert_eq!(parse_rfc3339_epoch(""), None);
    assert_eq!(parse_rfc3339_epoch("not-a-timestamp-at-all"), None);
    assert_eq!(parse_rfc3339_epoch("2026/08/28 15:04:05"), None);
}

#[test]
fn backoff_grows_then_caps() {
    assert_eq!(backoff_duration(1), Duration::from_millis(250));
    assert_eq!(backoff_duration(2), Duration::from_millis(500));
    assert_eq!(backoff_duration(3), Duration::from_millis(1_000));
    assert!(backoff_duration(20) <= Duration::from_millis(MAX_BACKOFF_MILLIS));
}

#[test]
fn missing_users_are_distinguished_from_real_failures() {
    let not_found = classify(&GraphQlError {
        kind: Some("NOT_FOUND".into()),
        message: "Could not resolve to a User".into(),
    });
    assert!(matches!(not_found, ApiError::UserNotFound { .. }));

    let other = classify(&GraphQlError { kind: Some("INTERNAL".into()), message: "boom".into() });
    assert!(matches!(other, ApiError::GitHubApi { .. }));
}

#[test]
fn timestamps_before_the_epoch_and_odd_fields_follow_the_formula() {
    assert_eq!(parse_rfc3339_epoch("1969-12-31T23:59:59Z"), Some(-1));
    assert_eq!(parse_rfc3339_epoch("1900-03-01T00:00:00Z"), Some(-2203891200));
    // Signs are read the way `i64::from_str` reads them.
    assert_eq!(parse_rfc3339_epoch("+970-01-01T00:00:00Z"), parse_rfc3339_epoch("0970-01-01T00:00:00Z"));
    assert_eq!(parse_rfc3339_epoch("2026-08-28T15:04:05+02:00"), Some(1787929445));
    assert_eq!(parse_rfc3339_epoch("2026-08-28T15:04:0"), None);
    assert_eq!(parse_rfc3339_epoch("2026-08-28X15:04:05Z"), None);
}

#[test]
fn backoff_is_capped_from_the_sixth_retry() {
    assert_eq!(backoff(6), 8_000);
    assert_eq!(backoff(7), 8_000);
    assert_eq!(backoff(u32::MAX), 8_000);
}

#[test]
fn rate_limits_and_missing_users_are_answers_not_failures() {
    let limited = ApiError::rate_limited("slow down", Some(5));
    assert!(matches!(after_failure(0, limited), RetryStep::GiveUp(ApiError::RateLimit { .. })));

    let missing = ApiError::UserNotFound { username: "x".into() };
    assert!(matches!(after_failure(0, missing), RetryStep::GiveUp(ApiError::UserNotFound { .. })));

    match after_failure(0, ApiError::github("boom")) {
        RetryStep::Retry { attempt, delay_millis } => {
            assert_eq!(attempt, 1);
            assert_eq!(delay_millis, 250);
        }
        RetryStep::GiveUp(_) => panic!("a transient failure should be retried"),
    }
    match after_failure(1, ApiError::github("boom")) {
        RetryStep::Retry { attempt, delay_millis } => assert_eq!((attempt, delay_millis), (2, 500)),
        RetryStep::GiveUp(_) => panic!("a second failure should be retried"),
    }
    match after_failure(MAX_ATTEMPTS - 1, ApiError::github("boom")) {
        RetryStep::GiveUp(error) => assert_eq!(error.to_string(), "boom"),
        RetryStep::Retry { .. } => panic!("the last attempt must not be retried"),
    }
}

#[test]
fn throttling_marks_the_credential_spent() {
    match judge_response(429, Some(30), 1_000) {
        Verdict::RateLimited { quota, error } => {
            assert_eq!(quota.remaining, 0);
            assert_eq!(quota.reset_at, 1_030);
            assert_eq!(error.retry_after(), Some(30));
            assert_eq!(error.to_string(), "GitHub rate limit exceeded");
        }
        _ => panic!("429 is a rate limit"),
    }
    match judge_response(403, None, 1_000) {
        Verdict::RateLimited { quota, error } => {
            assert_eq!(quota.reset_at, 1_060);
            assert_eq!(error.retry_after(), Some(60));
        }
        _ => panic!("403 is a rate limit"),
    }
}

#[test]
fn a_refused_credential_is_parked_for_an_hour() {
    match judge_response(401, None, 1_000) {
        Verdict::CredentialRejected { quota, error } => {
            assert_eq!(quota.remaining, 0);
            assert_eq!(quota.reset_at, 4_600);
            assert_eq!(error.to_string(), "GitHub rejected the credential");
        }
        _ => panic!("401 rejects the credential"),
    }
}

#[test]
fn other_failures_name_the_status() {
    match judge_response(500, None, 0) {
        Verdict::Failed(error) => {
            assert_eq!(error.to_string(), "GitHub returned HTTP 500 Internal Server Error");
            assert_eq!(error.status(), 502);
        }
        _ => panic!("500 is a failure"),
    }
    match judge_status(599, None, None, 0) {
        Verdict::Failed(error) => {
            assert_eq!(error.to_string(), "GitHub returned HTTP 599 <unknown status code>")
        }
        _ => panic!("599 is a failure"),
    }
    assert!(matches!(judge_response(200, None, 0), Verdict::Proceed));
    assert!(matches!(judge_response(204, Some(5), 0), Verdict::Proceed));
    assert!(matches!(judge_response(302, None, 0), Verdict::Failed(_)));
}

#[test]
fn retry_after_headers_are_read_as_unsigned_seconds() {
    assert_eq!(parse_retry_after("120"), Some(120));
    assert_eq!(parse_retry_after("+7"), Some(7));
    assert_eq!(parse_retry_after("-1"), None);
    assert_eq!(parse_retry_after("Wed, 21 Oct 2026 07:28:00 GMT"), None);
    assert_eq!(parse_retry_after("18446744073709551615"), Some(u64::MAX));
    assert_eq!(parse_retry_after("18446744073709551616"), None);
}

#[test]
fn quota_reports_prefer_githubs_own_figures() {
    let reported = RateLimit { limit: 5_000, cost: 1, remaining: 4_321, reset_at: "2026-08-28T15:04:05Z".into() };
    match quota_report_at(Some(&reported), 0) {
        QuotaReport::Record(status) => {
            assert_eq!(status.remaining, 4_321);
            assert_eq!(status.reset_at, 1787929445);
        }
        QuotaReport::Spend(_) => panic!("a report should be recorded"),
    }
    let garbled = RateLimit { limit: 5_000, cost: 1, remaining: 9, reset_at: "soon".into() };
    match quota_report_at(Some(&garbled), 100) {
        QuotaReport::Record(status) => assert_eq!(status.reset_at, 3_700),
        QuotaReport::Spend(_) => panic!("a report should be recorded"),
    }
    assert!(matches!(quota_report_at(None, 0), QuotaReport::Spend(1)));
    assert_eq!(reported.status().reset_at, 1787929445);
}

#[test]
fn graphql_errors_win_over_data() {
    let limited = GraphQlError { kind: Some("RATE_LIMITED".into()), message: String::new() };
    match settle_payload(Some(&limited), true) {
        Err(error) => assert_eq!(error.retry_after(), Some(60)),
        Ok(()) => panic!("an error should win"),
    }
    match settle_payload(None, false) {
        Err(error) => assert_eq!(error.to_string(), "GitHub returned no data"),
        Ok(()) => panic!("no data is a failure"),
    }
    assert!(settle_payload(None, true).is_ok());
    let untyped = GraphQlError { kind: None, message: "odd".into() };
    assert_eq!(classify(&untyped).to_string(), "GitHub GraphQL error: odd");
}
