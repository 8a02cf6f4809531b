use melos_rs::theme::{parse_color, pick_variant, theme_source, Color, Theme, ThemeFile, ThemeVariant};

fn variant(colors: Vec<(&str, &str)>) -> ThemeVariant {
    ThemeVariant {
        name: "custom".to_string(),
        mode: "dark".to_string(),
        colors: colors.into_iter().map(|(k, v)| (k.to_string(), v.to_string())).collect(),
    }
}

#[test]
fn test_parse_hex_6_digit() {
    assert_eq!(parse_color("#FF0000"), Color::Rgb(255, 0, 0));
    assert_eq!(parse_color("#00FF00"), Color::Rgb(0, 255, 0));
    assert_eq!(parse_color("#0000FF"), Color::Rgb(0, 0, 255));
}

#[test]
fn test_parse_hex_8_digit_ignores_alpha() {
    assert_eq!(parse_color("#FF0000FF"), Color::Rgb(255, 0, 0));
    assert_eq!(parse_color("#00FF0080"), Color::Rgb(0, 255, 0));
}

#[test]
fn test_parse_hex_lowercase() {
    assert_eq!(parse_color("#ff8800"), Color::Rgb(255, 136, 0));
}

#[test]
fn test_parse_invalid_returns_reset() {
    assert_eq!(parse_color("not-a-color"), Color::Reset);
    assert_eq!(parse_color("#GG0000"), Color::Reset);
    assert_eq!(parse_color("#FF"), Color::Reset);
}

#[test]
fn test_parse_without_hash() {
    assert_eq!(parse_color("FF0000"), Color::Rgb(255, 0, 0));
}

#[test]
fn test_default_theme_matches_hardcoded_colors() {
    let t = Theme::default();
    assert_eq!(t.accent, Color::Cyan);
    assert_eq!(t.text, Color::White);
    assert_eq!(t.text_muted, Color::DarkGray);
    assert_eq!(t.text_secondary, Color::Gray);
    assert_eq!(t.header, Color::Yellow);
    assert_eq!(t.success, Color::Green);
    assert_eq!(t.error, Color::Red);
    assert_eq!(t.highlight_bg, Color::Indexed(237));
    assert_eq!(t.highlight_fg, Color::White);
    assert_eq!(t.pkg_colors.len(), 10);
    assert_eq!(t.pkg_colors[0], Color::Cyan);
}

#[test]
fn test_available_names_not_empty() {
    let names = Theme::available_names();
    assert_eq!(names.len(), 19);
    assert!(names.contains(&"dark"));
    assert!(names.contains(&"light"));
    assert!(names.contains(&"catppuccin-mocha"));
    assert!(names.contains(&"dracula"));
    assert!(names.contains(&"nord"));
    assert!(names.contains(&"tokyo-night"));
    assert!(names.contains(&"one-dark"));
    assert!(names.contains(&"rose-pine"));
    assert!(names.contains(&"everforest-dark"));
}

#[test]
fn test_from_variant_uses_fallbacks_for_missing_keys() {
    let v = variant(vec![]);
    let t = Theme::from_variant(&v);
    assert_ne!(t.accent, Color::Reset);
    assert_ne!(t.text, Color::Reset);
    assert_ne!(t.header, Color::Reset);
}

#[test]
fn test_from_variant_reads_custom_colors() {
    let v = variant(vec![("accent", "#FF8800"), ("text", "#AABBCC")]);
    let t = Theme::from_variant(&v);
    assert_eq!(t.accent, Color::Rgb(255, 136, 0));
    assert_eq!(t.text, Color::Rgb(170, 187, 204));
}

#[test]
fn parse_color_reads_names_and_palette_indices() {
    assert_eq!(parse_color("red"), Color::Red);
    assert_eq!(parse_color("Light Blue"), Color::LightBlue);
    assert_eq!(parse_color("grey"), Color::Gray);
    assert_eq!(parse_color("10"), Color::Indexed(10));
    assert_eq!(parse_color("reset"), Color::Reset);
}

#[test]
fn parse_color_edge_cases() {
    assert_eq!(parse_color(""), Color::Reset);
    assert_eq!(parse_color("##00ff00"), Color::Rgb(0, 255, 0));
    assert_eq!(parse_color("+F+F+F"), Color::Rgb(15, 15, 15));
    assert_eq!(parse_color("#1234567"), Color::Reset);
    assert_eq!(parse_color("#12345G78"), Color::Reset);
}

#[test]
fn from_variant_fallbacks_are_default_dark_colours() {
    let t = Theme::from_variant(&variant(vec![]));
    assert_eq!(t.accent, Color::Rgb(0, 255, 255));
    assert_eq!(t.text_muted, Color::Rgb(0x66, 0x66, 0x66));
    assert_eq!(t.highlight_bg, Color::Rgb(0x3A, 0x3A, 0x3A));
    assert_eq!(t.pkg_colors[9], Color::Rgb(0x5F, 0x87, 0xFF));
}

#[test]
fn from_variant_reads_names_and_package_colours() {
    let v = variant(vec![("error", "magenta"), ("pkg_color_3", "#010203"), ("unused", "#FFFFFF")]);
    let t = Theme::from_variant(&v);
    assert_eq!(t.error, Color::Magenta);
    assert_eq!(t.pkg_colors[3], Color::Rgb(1, 2, 3));
    assert_eq!(t.pkg_colors[2], Color::Rgb(255, 255, 0));
}

#[test]
fn parse_color_non_ascii_text_gives_reset() {
    assert_eq!(parse_color("#aé123"), Color::Reset);
    assert_eq!(parse_color("ééé"), Color::Reset);
    assert_eq!(parse_color("#ABCDEé"), Color::Reset);
    let t = Theme::from_variant(&variant(vec![("accent", "#aé123")]));
    assert_eq!(t.accent, Color::Reset);
}

#[test]
fn theme_source_maps_names_to_files_and_variants() {
    assert_eq!(theme_source("dark"), Some((ThemeFile::DefaultDark, "Default Dark")));
    assert_eq!(theme_source("default-light"), Some((ThemeFile::DefaultLight, "Default Light")));
    assert_eq!(theme_source("rose-pine-dawn"), Some((ThemeFile::RosePine, "Rosé Pine Dawn")));
    assert_eq!(theme_source("tokyo-night-light"), Some((ThemeFile::TokyoNight, "Tokyo Night Light")));
    assert_eq!(theme_source("nonexistent"), None);
    for name in Theme::available_names() {
        assert!(theme_source(name).is_some(), "{name}");
    }
}

#[test]
fn pick_variant_by_name_else_first() {
    let mut a = variant(vec![]);
    a.name = "Nord".to_string();
    let mut b = variant(vec![]);
    b.name = "Nord Light".to_string();
    let vs = vec![a, b];
    assert_eq!(pick_variant(&vs, "Nord Light"), Some(1));
    assert_eq!(pick_variant(&vs, "Nord"), Some(0));
    assert_eq!(pick_variant(&vs, "Other"), Some(0));
    assert_eq!(pick_variant(&vec![], "Nord"), None);
}
