use rustify::config::{default_alsa_device, default_theme, CustomThemeConfig, TuiConfig};

#[test]
fn default_config_has_sensible_values() {
    let config = TuiConfig::default();
    assert_eq!(config.alsa_device, "default");
    assert!(config.music_dirs.is_empty());
    assert_eq!(config.theme, "default");
}

#[test]
fn default_helpers() {
    assert_eq!(default_alsa_device(), "default");
    assert_eq!(default_theme(), "default");
    let c = CustomThemeConfig::default();
    assert!(c.fg.is_none() && c.visualizer.is_none());
    let t = TuiConfig::default();
    assert!(t.custom_theme.is_none() && !t.replay_gain && t.crossfade_ms == 0);
    assert!(t.listenbrainz_token.is_empty());
}
