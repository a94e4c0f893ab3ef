use github_ranked::cache::{
    expires_at, is_live, normalize_username, rank_key, remaining_lifetime, ttl_for_year, year_key,
    SCOPE_PUBLIC, TTL_CURRENT_YEAR, TTL_HISTORICAL_YEAR,
};

#[test]
fn rank_keys_are_stable_and_scoped() {
    assert_eq!(rank_key("octocat", None, SCOPE_PUBLIC), "rank:octocat:all:public");
    assert_eq!(rank_key("octocat", Some(2024), SCOPE_PUBLIC), "rank:octocat:2024:public");
    // Usernames are case-insensitive, so keys must not fragment by case.
    assert_eq!(rank_key("  OctoCat ", None, SCOPE_PUBLIC), "rank:octocat:all:public");
    assert_eq!(year_key("OctoCat", 2024), "year:octocat:2024");
}

#[test]
fn theme_does_not_affect_the_key() {
    assert_eq!(rank_key("octocat", None, SCOPE_PUBLIC), rank_key("octocat", None, SCOPE_PUBLIC));
}

#[test]
fn finished_seasons_are_held_far_longer_than_the_live_one() {
    assert_eq!(ttl_for_year(2025, 2026), TTL_HISTORICAL_YEAR);
    assert_eq!(ttl_for_year(2026, 2026), TTL_CURRENT_YEAR);
    assert_eq!(ttl_for_year(2027, 2026), TTL_CURRENT_YEAR);
}

#[test]
fn scopes_and_seasons_keep_keys_apart() {
    assert_ne!(rank_key("octocat", None, "public"), rank_key("octocat", None, "private"));
    assert_ne!(rank_key("octocat", None, "public"), rank_key("octocat", Some(2024), "public"));
    assert_eq!(rank_key("x", Some(-5), "public"), "rank:x:-5:public");
}

#[test]
fn usernames_are_lower_cased_for_keys() {
    assert_eq!(normalize_username("\tTorValds\n"), "torvalds");
    assert_eq!(normalize_username("ÖRN"), "örn");
}

#[test]
fn entries_live_until_their_expiry_second() {
    let stored = expires_at(1_000, 60);
    assert_eq!(stored, 1_060);
    assert!(is_live(stored, 1_059));
    assert!(!is_live(stored, 1_060));
    assert_eq!(remaining_lifetime(stored, 1_000), 60);
    assert_eq!(remaining_lifetime(stored, 2_000), 0);
    // A zero lifetime means the entry is already gone.
    assert!(!is_live(expires_at(1_000, 0), 1_000));
}

#[test]
fn lifetimes_beyond_i64_wrap_as_a_cast_does() {
    assert_eq!(expires_at(0, u64::MAX), -1);
}
