use github_ranked::cache::{TTL_ERROR, TTL_NOT_FOUND};
use github_ranked::credential::AuthError;
use github_ranked::error::{clone_error, error_ttl, misconfigured, name_not_found, ApiError};
use github_ranked::validation::{parse_season, validate_username};

fn details(error: &ApiError) -> Vec<(String, String)> {
    match error {
        ApiError::Validation { details, .. } => details.clone(),
        _ => panic!("not a validation error"),
    }
}

#[test]
fn each_error_has_its_status_and_name() {
    let cases = [
        (ApiError::validation("bad"), 400, "ValidationError"),
        (ApiError::UserNotFound { username: "x".into() }, 404, "UserNotFound"),
        (ApiError::rate_limited("slow", None), 429, "RateLimitExceeded"),
        (ApiError::github("down"), 502, "GitHubAPIError"),
        (ApiError::Internal("oops".into()), 500, "InternalError"),
    ];
    for (error, status, name) in cases {
        assert_eq!(error.status(), status);
        assert_eq!(error.name(), name);
    }
}

#[test]
fn details_behave_like_a_json_object() {
    let error = ApiError::validation("bad")
        .with_detail("field", "one")
        .with_detail("hint", "two")
        .with_detail("field", "three");
    assert_eq!(
        details(&error),
        vec![("field".to_string(), "three".to_string()), ("hint".to_string(), "two".to_string())]
    );
    // Only validation errors carry details.
    let other = ApiError::github("down").with_detail("k", "v");
    assert_eq!(other.to_string(), "down");
}

#[test]
fn a_validation_failure_keeps_its_field_and_hint() {
    let error = ApiError::from_validation(validate_username("a--b").unwrap_err());
    assert_eq!(error.to_string(), "Invalid GitHub username format");
    assert_eq!(
        details(&error),
        vec![
            ("username".to_string(), "a--b".to_string()),
            ("hint".to_string(), "Must be 1-39 alphanumeric characters or hyphens".to_string()),
        ]
    );
    let season = ApiError::from_validation(parse_season(Some("1900"), 2026).unwrap_err());
    assert_eq!(details(&season)[0], ("season".to_string(), "1900".to_string()));
}

#[test]
fn auth_failures_acquire_a_status() {
    let internal = ApiError::from_auth(AuthError::Misconfigured("no tokens".into()));
    assert_eq!(internal.status(), 500);
    let exhausted = ApiError::from_auth(AuthError::Exhausted { retry_after: Some(42) });
    assert_eq!(exhausted.status(), 429);
    assert_eq!(exhausted.retry_after(), Some(42));
    assert_eq!(
        exhausted.to_string(),
        "All GitHub credentials are rate-limited. Please try again later."
    );
    let rejected = ApiError::from_auth(AuthError::Rejected("revoked".into()));
    assert_eq!(rejected.status(), 502);
    assert_eq!(rejected.to_string(), "revoked");
}

#[test]
fn errors_are_cached_so_failures_are_not_retried_in_a_loop() {
    assert_eq!(error_ttl(&ApiError::UserNotFound { username: "x".into() }), TTL_NOT_FOUND);
    assert_eq!(error_ttl(&ApiError::github("down")), TTL_ERROR);
    assert_eq!(ApiError::Internal("x".into()).cache_ttl(), TTL_ERROR);
}

#[test]
fn internal_detail_is_never_echoed() {
    let error = ApiError::Internal("token ghp_123 leaked".into());
    assert_eq!(error.to_string(), "internal error: token ghp_123 leaked");
    let body = error.body("req-1");
    assert_eq!(body.message, "Internal server error");
    assert_eq!(body.error, "InternalError");
    assert_eq!(body.code, 500);
    assert_eq!(body.request_id, "req-1");
    assert!(body.details.is_none());
    assert!(body.retry_after.is_none());
}

#[test]
fn bodies_carry_details_only_when_there_are_some() {
    let missing = ApiError::UserNotFound { username: "ghost".into() }.body("r");
    assert_eq!(missing.message, "User not found: ghost");
    assert_eq!(missing.details, Some(vec![("username".to_string(), "ghost".to_string())]));

    assert!(ApiError::validation("bad").body("r").details.is_none());
    let with = ApiError::validation("bad").with_detail("k", "v").body("r");
    assert_eq!(with.details, Some(vec![("k".to_string(), "v".to_string())]));

    let limited = ApiError::rate_limited("slow", Some(9)).body("r");
    assert_eq!(limited.retry_after, Some(9));
    assert_eq!(limited.code, 429);
}

#[test]
fn missing_users_get_their_name_filled_in() {
    let filled = name_not_found(ApiError::UserNotFound { username: String::new() }, "octocat");
    assert_eq!(filled.to_string(), "User not found: octocat");
    let passed = name_not_found(ApiError::github("down"), "octocat");
    assert_eq!(passed.to_string(), "down");
    assert!(ApiError::UserNotFound { username: String::new() }.is_definitive());
    assert!(!ApiError::github("down").is_definitive());
}

#[test]
fn misconfiguration_is_internal() {
    let error = misconfigured("no credentials");
    assert_eq!(error.status(), 500);
    assert_eq!(error.to_string(), "internal error: misconfigured: no credentials");
}

#[test]
fn shared_errors_are_copied_field_for_field() {
    let shared = ApiError::validation("bad").with_detail("k", "v");
    let copy = clone_error(&shared);
    assert_eq!(copy.to_string(), "bad");
    assert_eq!(details(&copy), vec![("k".to_string(), "v".to_string())]);
    let limited = clone_error(&ApiError::rate_limited("slow", Some(3)));
    assert_eq!(limited.retry_after(), Some(3));
}
