use github_ranked::routes::{
    acceptable_request_id, badge_cache_control, not_found_body, public_cache_control, readiness,
    BadgeParams, RequestId,
};
use github_ranked::service::CacheOutcome;

fn params(force: Option<&str>) -> BadgeParams {
    BadgeParams { theme: None, season: None, force: force.map(str::to_string) }
}

fn is_uuid(id: &str) -> bool {
    id.len() == 36
        && id.chars().enumerate().all(|(i, c)| {
            if [8, 13, 18, 23].contains(&i) { c == '-' } else { c.is_ascii_hexdigit() && !c.is_ascii_uppercase() }
        })
}

#[test]
fn force_takes_true_or_one() {
    assert!(params(Some("true")).force_refresh());
    assert!(params(Some("1")).force_refresh());
    assert!(!params(Some("yes")).force_refresh());
    assert!(!params(Some("TRUE")).force_refresh());
    assert!(!params(None).force_refresh());
    assert!(!BadgeParams::empty().force_refresh());
}

#[test]
fn an_upstream_request_id_is_adopted() {
    let id = RequestId::assign(Some("trace-123"));
    assert_eq!(id.as_str(), "trace-123");
    assert_eq!(id.to_string(), "trace-123");
}

#[test]
fn a_hostile_request_id_is_not_reflected() {
    let long = "x".repeat(129);
    for hostile in ["", long.as_str(), "naïve"] {
        assert!(!acceptable_request_id(hostile));
        let id = RequestId::assign(Some(hostile));
        assert_ne!(id.as_str(), hostile);
        assert!(is_uuid(id.as_str()), "{}", id.as_str());
    }
    assert!(acceptable_request_id(&"x".repeat(128)));
}

#[test]
fn every_request_gets_an_id() {
    let a = RequestId::assign(None);
    let b = RequestId::assign(None);
    assert!(is_uuid(a.as_str()));
    assert_ne!(a.as_str(), b.as_str());
}

#[test]
fn badges_are_cached_with_stale_while_revalidate() {
    assert_eq!(
        badge_cache_control(86_400),
        "public, max-age=86400, s-maxage=86400, stale-while-revalidate=43200"
    );
    assert_eq!(public_cache_control(300), "public, max-age=300");
}

#[test]
fn unknown_api_routes_get_the_error_envelope() {
    let body = not_found_body("req-9");
    assert_eq!(body.error, "NotFound");
    assert_eq!(body.code, 404);
    assert_eq!(body.message, "No such endpoint");
    assert_eq!(
        body.details,
        Some(vec![(
            "hint".to_string(),
            "Try /api/rank/{username} or /api/v1/rank/{username}".to_string()
        )])
    );
    assert_eq!(body.request_id, "req-9");
}

#[test]
fn readiness_needs_a_credential_that_can_serve_a_miss() {
    let ready = readiness(2);
    assert!(ready.ready);
    assert_eq!((ready.status, ready.code), ("ready", 200));
    let degraded = readiness(0);
    assert!(!degraded.ready);
    assert_eq!((degraded.status, degraded.code), ("degraded", 503));
}

#[test]
fn cache_outcomes_name_their_header() {
    assert_eq!(CacheOutcome::Hit.as_header(), "HIT");
    assert_eq!(CacheOutcome::Miss.as_header(), "MISS");
    assert_eq!(CacheOutcome::from_computed(true), CacheOutcome::Miss);
    assert_eq!(CacheOutcome::from_computed(false), CacheOutcome::Hit);
}

#[test]
fn scrapes_do_not_count_themselves() {
    assert!(!github_ranked::routes::counts_in_metrics("/metrics"));
    assert!(github_ranked::routes::counts_in_metrics("/api/rank/octocat"));
    assert!(github_ranked::routes::counts_in_metrics("/metrics/"));
}

#[test]
fn a_minted_id_is_a_version_4_uuid() {
    for _ in 0..16 {
        let id = RequestId::assign(None);
        let chars: Vec<char> = id.as_str().chars().collect();
        assert_eq!(chars[14], '4');
        assert!(matches!(chars[19], '8' | '9' | 'a' | 'b'), "{}", id.as_str());
    }
}
