//! Front-end configuration and its defaults.
use vstd::prelude::*;

verus! {

/// Custom theme colors as hex strings (`#RRGGBB`).
#[derive(Debug, Clone)]
pub struct CustomThemeConfig {
    pub fg: Option<String>,
    pub fg_dim: Option<String>,
    pub accent: Option<String>,
    pub accent_dim: Option<String>,
    pub border: Option<String>,
    pub error: Option<String>,
    pub visualizer: Option<Vec<String>>,
}

impl Default for CustomThemeConfig {
    fn default() -> (c: CustomThemeConfig)
        ensures
            c.fg is None,
            c.fg_dim is None,
            c.accent is None,
            c.accent_dim is None,
            c.border is None,
            c.error is None,
            c.visualizer is None,
    {
        CustomThemeConfig {
            fg: None,
            fg_dim: None,
            accent: None,
            accent_dim: None,
            border: None,
            error: None,
            visualizer: None,
        }
    }
}

/// Front-end configuration (read from `tui.toml` in the user's config directory).
#[derive(Debug, Clone)]
pub struct TuiConfig {
    /// Directories to scan for music files.
    pub music_dirs: Vec<String>,
    /// ALSA device name passed to the player.
    pub alsa_device: String,
    /// Theme preset name.
    pub theme: String,
    /// Custom theme color overrides (optional).
    pub custom_theme: Option<CustomThemeConfig>,
    pub replay_gain: bool,
    pub crossfade_ms: u64,
    pub listenbrainz_token: String,
}

/// The ALSA device used when the configuration names none.
pub fn default_alsa_device() -> (s: String)
    ensures
        s@ == "default"@,
{
    String::from_str("default")
}

/// The theme used when the configuration names none.
pub fn default_theme() -> (s: String)
    ensures
        s@ == "default"@,
{
    String::from_str("default")
}

impl Default for TuiConfig {
    fn default() -> (c: TuiConfig)
        ensures
            c.music_dirs@.len() == 0,
            c.alsa_device@ == "default"@,
            c.theme@ == "default"@,
            c.custom_theme is None,
            !c.replay_gain,
            c.crossfade_ms == 0,
            c.listenbrainz_token@.len() == 0,
    {
        TuiConfig {
            music_dirs: Vec::new(),
            alsa_device: default_alsa_device(),
            theme: default_theme(),
            custom_theme: None,
            replay_gain: false,
            crossfade_ms: 0,
            listenbrainz_token: String::new(),
        }
    }
}

} // verus!
