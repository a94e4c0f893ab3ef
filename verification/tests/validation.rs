use github_ranked::validation::{
    is_valid_username, parse_season, parse_theme, theme_names, validate_username, Theme, ValidationError,
};

#[test]
fn accepts_real_github_usernames() {
    for name in ["a", "octocat", "Shemarhn", "torvalds", "a-b-c", "user123", &"a".repeat(39)] {
        assert!(is_valid_username(name), "{name} should be valid");
    }
}

#[test]
fn rejects_malformed_usernames() {
    for name in ["", "-lead", "trail-", "a--b", "has space", "has_underscore", "dot.dot", &"a".repeat(40)] {
        assert!(!is_valid_username(name), "{name:?} should be rejected");
    }
}

#[test]
fn unknown_theme_falls_back_rather_than_failing() {
    assert_eq!(parse_theme(Some("cyberpunk")), Theme::Cyberpunk);
    assert_eq!(parse_theme(Some("CYBERPUNK")), Theme::Cyberpunk);
    assert_eq!(parse_theme(Some("nonsense")), Theme::Default);
    assert_eq!(parse_theme(None), Theme::Default);
}

#[test]
fn season_bounds_match_upstream() {
    assert_eq!(parse_season(None, 2026).unwrap(), None);
    assert_eq!(parse_season(Some("2024"), 2026).unwrap(), Some(2024));
    assert_eq!(parse_season(Some("2010"), 2026).unwrap(), Some(2010));
    assert_eq!(parse_season(Some("2027"), 2026).unwrap(), Some(2027));

    assert!(parse_season(Some("2009"), 2026).is_err());
    assert!(parse_season(Some("2028"), 2026).is_err());
    assert!(parse_season(Some("notayear"), 2026).is_err());
}

#[test]
fn a_blank_season_means_all_time_and_blanks_around_a_year_are_ignored() {
    assert_eq!(parse_season(Some(""), 2026).unwrap(), None);
    assert_eq!(parse_season(Some(" 2025 "), 2026).unwrap(), Some(2025));
}

#[test]
fn rejections_carry_their_field_value_and_hint() {
    let username = validate_username("a--b").unwrap_err();
    assert_eq!(username.field(), "username");
    assert_eq!(username.value(), "a--b");
    assert_eq!(username.message(), "Invalid GitHub username format");
    assert_eq!(username.hint(), "Must be 1-39 alphanumeric characters or hyphens");

    let season = parse_season(Some("1999"), 2026).unwrap_err();
    assert_eq!(season.field(), "season");
    assert_eq!(season.value(), "1999");
    assert_eq!(season.message(), "Invalid season parameter");
    assert_eq!(season.hint(), "Season must be a year between 2010 and 2027");
    assert!(matches!(season, ValidationError::Season { current_year: 2026, .. }));
}

#[test]
fn theme_names_round_trip() {
    for theme in Theme::ALL {
        assert_eq!(Theme::from_name(theme.as_str()), Some(theme));
        assert_eq!(parse_theme(Some(theme.as_str())), theme);
    }
    assert_eq!(Theme::from_name("Ocean"), Some(Theme::Ocean));
    assert_eq!(Theme::from_name("sea"), None);
}

#[test]
fn valid_usernames_pass_validation() {
    assert!(validate_username("octocat").is_ok());
    assert!(validate_username("").is_err());
}

#[test]
fn themes_parse_from_text() {
    assert_eq!("Galaxy".parse::<Theme>(), Ok(Theme::Galaxy));
    assert_eq!("minimal".parse::<Theme>(), Ok(Theme::Minimal));
    assert_eq!("neon".parse::<Theme>(), Err(()));
}

#[test]
fn the_theme_picker_lists_every_theme_in_order() {
    assert_eq!(
        theme_names(),
        vec!["default", "dark", "light", "minimal", "cyberpunk", "ocean", "forest", "sunset", "galaxy"]
    );
}

#[test]
fn upper_case_theme_names_select_their_theme() {
    for theme in Theme::ALL {
        let shouted = theme.as_str().to_ascii_uppercase();
        assert_eq!(parse_theme(Some(&shouted)), theme);
        assert_eq!(shouted.parse::<Theme>(), Ok(theme));
    }
}

#[test]
fn the_season_hint_names_the_latest_accepted_year() {
    assert_eq!(parse_season(Some("2027"), 2026).unwrap(), Some(2027));
    let rejected = parse_season(Some("2028"), 2026).unwrap_err();
    assert_eq!(rejected.hint(), "Season must be a year between 2010 and 2027");
}
