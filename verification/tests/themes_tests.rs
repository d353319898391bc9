use stik_core::themes::{
    color_to_hex, default_system_shortcuts, is_legacy_theme_mode, is_valid_active_theme,
    local_only_actions, normalize_system_shortcuts, parse_color_value, parse_theme_colors,
    CustomThemeDefinition, ThemeColors,
};

fn sample_colors(value: &str) -> ThemeColors {
    ThemeColors {
        bg: value.to_string(),
        surface: value.to_string(),
        ink: value.to_string(),
        stone: value.to_string(),
        line: value.to_string(),
        accent: value.to_string(),
        accent_light: value.to_string(),
        accent_dark: value.to_string(),
    }
}

#[test]
fn parse_color_value_rejects_invalid_strings() {
    assert_eq!(parse_color_value("#112233"), Some("17 34 51".to_string()));
    assert_eq!(parse_color_value("10 20 30"), Some("10 20 30".to_string()));
    assert_eq!(parse_color_value("not-a-color"), None);
}

#[test]
fn parse_color_value_handles_edges() {
    assert_eq!(parse_color_value("  #ffffff  "), Some("255 255 255".to_string()));
    assert_eq!(parse_color_value("#fff"), None);
    assert_eq!(parse_color_value("#11223g"), None);
    assert_eq!(parse_color_value("10 20"), None);
    assert_eq!(parse_color_value("10 20 300"), None);
}

#[test]
fn theme_colors_are_normalized_or_rejected_by_field() {
    let ok = parse_theme_colors(sample_colors("#000000")).unwrap();
    assert_eq!(ok.bg, "0 0 0");
    let mut bad = sample_colors("#000000");
    bad.accent = "nope".to_string();
    assert_eq!(
        parse_theme_colors(bad).unwrap_err(),
        "Invalid color format for accent"
    );
}

#[test]
fn color_to_hex_round_trips_triples() {
    assert_eq!(color_to_hex("17 34 51"), "#112233");
    assert_eq!(color_to_hex("255 255 255"), "#ffffff");
    assert_eq!(color_to_hex("not a color"), "not a color");
}

#[test]
fn theme_identity_rules() {
    assert!(is_legacy_theme_mode("dark"));
    assert!(!is_legacy_theme_mode("dracula"));
    let customs = vec![CustomThemeDefinition {
        id: "imported-abc".to_string(),
        name: "Mine".to_string(),
        is_dark: true,
        colors: sample_colors("0 0 0"),
    }];
    assert!(is_valid_active_theme("", &customs));
    assert!(is_valid_active_theme("tokyo-night", &customs));
    assert!(is_valid_active_theme("imported-abc", &customs));
    assert!(!is_valid_active_theme("removed-custom-theme", &customs));
}

#[test]
fn missing_system_shortcuts_are_filled_in() {
    let mut shortcuts = vec![("search".to_string(), "Cmd+Alt+Space".to_string())];
    normalize_system_shortcuts(&mut shortcuts);
    // the existing binding is kept
    assert_eq!(shortcuts[0], ("search".to_string(), "Cmd+Alt+Space".to_string()));
    // and every default action is present
    for action in ["search", "manager", "settings", "last_note", "zen_mode"] {
        assert!(shortcuts.iter().any(|(a, _)| a == action));
    }
    assert_eq!(default_system_shortcuts().len(), 5);
    assert_eq!(local_only_actions(), ["zen_mode"]);
}
