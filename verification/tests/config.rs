use github_ranked::auth::{any_provider_available, pat_allowed_in_production};
use github_ranked::config::{cache_path_setting, current_year, setting_or, Environment, DEFAULT_CACHE_PATH};

#[test]
fn production_is_recognised_by_either_spelling() {
    assert!(Environment::Production.is_production());
    assert!(!Environment::Development.is_production());
    assert_eq!(Environment::from_app_env(Some("production")), Environment::Production);
    assert_eq!(Environment::from_app_env(Some("prod")), Environment::Production);
    assert_eq!(Environment::from_app_env(Some("staging")), Environment::Development);
    assert_eq!(Environment::from_app_env(None), Environment::Development);
}

#[test]
fn current_year_is_plausible() {
    let year = current_year();
    assert!((2024..2100).contains(&year), "got {year}");
}

#[test]
fn blank_settings_fall_back_to_their_default() {
    assert_eq!(setting_or(Some("127.0.0.1"), "0.0.0.0"), "127.0.0.1");
    assert_eq!(setting_or(Some("   "), "0.0.0.0"), "0.0.0.0");
    assert_eq!(setting_or(None, "0.0.0.0"), "0.0.0.0");
}

#[test]
fn the_durable_cache_can_be_switched_off_explicitly() {
    assert_eq!(cache_path_setting(Some("")), None);
    assert_eq!(cache_path_setting(Some("none")), None);
    assert_eq!(cache_path_setting(Some("/data/c.db")), Some("/data/c.db".to_string()));
    assert_eq!(cache_path_setting(None), Some(DEFAULT_CACHE_PATH.to_string()));
}

#[test]
fn this_build_links_a_provider_that_stays_out_of_production() {
    assert!(any_provider_available());
    assert!(!pat_allowed_in_production());
}
