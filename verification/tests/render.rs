use github_ranked::ranking::{tier_colors, tier_label, Division, Tier};
use github_ranked::render::card::{background, card_namespace, defs, escape, group_thousands};
use github_ranked::render::icons::{markup, namespaced_markup};
use github_ranked::render::text::{glyph_index, Weight, GLYPH_COUNT};
use github_ranked::render::theme::{colour_channels_of, palette, STAT_COLORS};
use github_ranked::validation::Theme;

#[test]
fn css_weights_map_onto_available_faces() {
    assert_eq!(Weight::from_css(400), Weight::Regular);
    assert_eq!(Weight::from_css(500), Weight::Regular);
    assert_eq!(Weight::from_css(600), Weight::Bold);
    assert_eq!(Weight::from_css(800), Weight::Bold);
}

#[test]
fn every_theme_has_a_palette() {
    for theme in Theme::ALL {
        let p = palette(theme);
        assert!(!p.text_primary.is_empty(), "{theme:?} has no text colour");
    }
}

#[test]
fn only_minimal_is_transparent() {
    for theme in Theme::ALL {
        assert_eq!(
            palette(theme).is_transparent(),
            theme == Theme::Minimal,
            "{theme:?} transparency is wrong"
        );
    }
}

#[test]
fn colours_are_valid_css() {
    for theme in Theme::ALL {
        let p = palette(theme);
        for colour in [
            p.background_primary,
            p.background_secondary,
            p.border,
            p.text_primary,
            p.text_secondary,
            p.text_muted,
        ] {
            assert!(
                colour == "transparent"
                    || (colour.starts_with('#') && (colour.len() == 7 || colour.len() == 4)),
                "{theme:?}: {colour:?} is not a hex colour"
            );
        }
    }
}

#[test]
fn every_palette_colour_parses_as_channels() {
    for theme in Theme::ALL {
        let p = palette(theme);
        for colour in [p.background_primary, p.border, p.text_primary, p.text_muted] {
            assert_eq!(colour_channels_of(colour).is_some(), colour != "transparent", "{colour}");
        }
    }
    for colour in STAT_COLORS {
        assert!(colour_channels_of(colour).is_some());
    }
}

#[test]
fn hex_colours_read_both_forms() {
    assert_eq!(colour_channels_of("#ffffff"), Some((255, 255, 255)));
    assert_eq!(colour_channels_of("#0d1117"), Some((13, 17, 23)));
    assert_eq!(colour_channels_of("#fff"), Some((255, 255, 255)));
    assert_eq!(colour_channels_of("#1aF"), Some((17, 170, 255)));
    // What `u8::from_str_radix` reads, sign included.
    assert_eq!(colour_channels_of("#+f+f+f"), Some((15, 15, 15)));
    assert_eq!(colour_channels_of("transparent"), None);
    assert_eq!(colour_channels_of("#12345"), None);
    assert_eq!(colour_channels_of("#gg0000"), None);
    assert_eq!(colour_channels_of("ffffff"), None);
}

#[test]
fn thousands_grouping_matches_locale_formatting() {
    assert_eq!(group_thousands(0), "0");
    assert_eq!(group_thousands(999), "999");
    assert_eq!(group_thousands(1_000), "1,000");
    assert_eq!(group_thousands(12_480), "12,480");
    assert_eq!(group_thousands(1_234_567), "1,234,567");
    assert_eq!(group_thousands(4_521), "4,521");
}

#[test]
fn markup_is_escaped() {
    assert_eq!(escape("a<b>&\"c"), "a&lt;b&gt;&amp;&quot;c");
    assert_eq!(escape("it's"), "it&apos;s");
    assert_eq!(escape("octocat"), "octocat");
    assert!(!escape("<b>").contains("<b>"));
}

#[test]
fn tier_labels_name_the_division() {
    assert_eq!(tier_label(Tier::Gold, Some(Division::II)), "Gold II");
    assert_eq!(tier_label(Tier::Challenger, None), "Challenger");
}

#[test]
fn same_tier_in_different_themes_gets_distinct_namespaces() {
    let dark = card_namespace("octocat", Tier::Gold, Theme::Dark, 1500, None, 2026);
    let light = card_namespace("octocat", Tier::Gold, Theme::Light, 1500, None, 2026);
    assert_ne!(dark, light);
    assert!(dark.starts_with('g') && dark.ends_with('-'));
}

#[test]
fn identical_cards_share_a_namespace() {
    let a = card_namespace("octocat", Tier::Gold, Theme::Default, 1500, None, 2026);
    let b = card_namespace("octocat", Tier::Gold, Theme::Default, 1500, Some(2026), 2027);
    assert_eq!(a, b);
}

#[test]
fn different_users_get_distinct_namespaces() {
    let a = card_namespace("octocat", Tier::Gold, Theme::Default, 1500, None, 2026);
    let b = card_namespace("torvalds", Tier::Gold, Theme::Default, 1500, None, 2026);
    assert_ne!(a, b);
}

#[test]
fn emblems_are_namespaced_per_card() {
    for tier in Tier::ALL_DESC {
        let svg = namespaced_markup(tier, "card1-");
        assert!(!svg.contains("{NS}"), "{tier:?} leaked a placeholder");
        assert!(!svg.contains("stopColor"), "{tier:?} kept a JSX attribute");
        assert!(markup(tier).len() > 100, "{tier:?} emblem looks empty");
    }
    let first = namespaced_markup(Tier::Challenger, "a-");
    let second = namespaced_markup(Tier::Challenger, "b-");
    assert!(first.contains(r#"id="a-chall-grad""#));
    assert!(second.contains(r#"id="b-chall-grad""#));
    assert!(first.contains("url(#a-chall-grad)"));
    assert!(!first.contains("url(#b-chall-grad)"));
}

#[test]
fn backgrounds_follow_the_palette() {
    let minimal = background("n-", &palette(Theme::Minimal));
    assert!(minimal.contains(r#"fill="none""#));
    let default = background("n-", &palette(Theme::Default));
    assert!(!default.contains(r#"fill="none""#));
    let (gradient, _) = tier_colors(Tier::Gold);
    let d = defs("n-", &palette(Theme::Default), gradient);
    assert!(d.starts_with("<defs>") && d.ends_with("</defs>"));
}

#[test]
fn unknown_characters_fall_back_to_a_question_mark() {
    assert_eq!(glyph_index(' '), 0);
    assert_eq!(glyph_index('A'), ('A' as usize) - 32);
    assert_eq!(glyph_index('é'), ('?' as usize) - 32);
    assert!(glyph_index('~') < GLYPH_COUNT);
}

#[test]
fn namespaces_hash_the_cards_appearance_with_fnv1a() {
    let mut bytes: Vec<u8> = Vec::new();
    bytes.extend_from_slice("octocat".as_bytes());
    bytes.extend_from_slice("Gold".as_bytes());
    bytes.extend_from_slice("dark".as_bytes());
    bytes.extend_from_slice(&1500i64.to_le_bytes());
    bytes.extend_from_slice(&2024i32.to_le_bytes());
    let mut hash: u64 = 0xcbf2_9ce4_8422_2325;
    for byte in bytes {
        hash ^= u64::from(byte);
        hash = hash.wrapping_mul(0x1000_0000_01b3);
    }
    let expected = format!("g{:x}-", hash & 0xffff_ffff);
    assert_eq!(card_namespace("octocat", Tier::Gold, Theme::Dark, 1500, Some(2024), 2026), expected);
}
