use rustify::config::{CustomThemeConfig, TuiConfig};
use rustify::theme::{hex_color_would_panic, parse_hex_color, Color, Theme};

#[test]
fn default_theme_has_magenta_accent() {
    let theme = Theme::default_theme();
    assert_eq!(theme.accent, Color::Magenta);
}

#[test]
fn all_presets_load() {
    let names = ["default", "nord", "dracula", "gruvbox", "catppuccin"];
    for name in names {
        let theme = Theme::from_name(name);
        assert!(!theme.name.is_empty());
    }
}

#[test]
fn unknown_name_falls_back_to_default() {
    let theme = Theme::from_name("nonexistent");
    assert_eq!(theme.name, "default");
}

#[test]
fn parse_hex_color_valid() {
    assert_eq!(parse_hex_color("#FF00FF"), Some(Color::Rgb(255, 0, 255)));
    assert_eq!(parse_hex_color("#000000"), Some(Color::Rgb(0, 0, 0)));
}

#[test]
fn parse_hex_color_invalid() {
    assert_eq!(parse_hex_color("not-a-color"), None);
    assert_eq!(parse_hex_color("#GG00FF"), None);
}

#[test]
fn hex_color_edge_cases() {
    assert_eq!(parse_hex_color("#abcdef"), Some(Color::Rgb(0xab, 0xcd, 0xef)));
    assert_eq!(parse_hex_color("#+F+F+F"), Some(Color::Rgb(15, 15, 15)));
    assert_eq!(parse_hex_color("#FFF"), None);
    assert_eq!(parse_hex_color("FF00FF"), None);
    assert_eq!(parse_hex_color("#é1234"), None);
    assert!(!hex_color_would_panic("#é1234"));
    assert!(hex_color_would_panic("#aé123"));
    assert!(!hex_color_would_panic("#FF00FF"));
}

#[test]
fn presets_by_name() {
    assert_eq!(Theme::from_name("nord").accent, Color::Rgb(136, 192, 208));
    assert_eq!(Theme::from_name("dracula").error, Color::Rgb(255, 85, 85));
    assert_eq!(Theme::from_name("gruvbox").visualizer, vec![Color::Rgb(104, 157, 106), Color::Rgb(250, 189, 47)]);
    assert_eq!(Theme::from_name("catppuccin").border, Color::Rgb(49, 50, 68));
}

#[test]
fn custom_colors_override_preset() {
    let mut config = TuiConfig::default();
    config.theme = "nord".into();
    let theme = Theme::from_config(&config);
    assert_eq!(theme.name, "nord");
    let mut custom = CustomThemeConfig::default();
    custom.fg = Some("#010203".into());
    custom.accent = Some("bogus".into());
    custom.visualizer = Some(vec!["#FFFFFF".into(), "nope".into(), "#000000".into()]);
    config.custom_theme = Some(custom);
    let theme = Theme::from_config(&config);
    assert_eq!(theme.name, "custom");
    assert_eq!(theme.fg, Color::Rgb(1, 2, 3));
    assert_eq!(theme.accent, Color::Rgb(136, 192, 208));
    assert_eq!(theme.visualizer, vec![Color::Rgb(255, 255, 255), Color::Rgb(0, 0, 0)]);
    let mut custom = CustomThemeConfig::default();
    custom.visualizer = Some(vec!["nope".into()]);
    config.custom_theme = Some(custom);
    let theme = Theme::from_config(&config);
    assert_eq!(theme.visualizer, Theme::nord().visualizer);
}
