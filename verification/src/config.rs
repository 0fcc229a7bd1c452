use vstd::prelude::*;
use vstd::string::*;
use crate::utils::paths;
use crate::utils::text::eq_str;

verus! {

/// The characters of an optional string.
pub open spec fn opt_view(o: Option<String>) -> Option<Seq<char>> {
    match o {
        Some(s) => Some(s@),
        None => None,
    }
}

/// Material Design theme configuration.
pub struct ThemeConfig {
    /// Theme name ("default", "slint", "auto", "seed", "custom").
    pub name: String,
    /// Color mode ("dark" or "light").
    pub mode: Option<String>,
    /// Seed color for theme generation in HEX format.
    pub seed_color: Option<String>,
    /// Path to a custom JSON theme file.
    pub path: Option<String>,
}

impl Default for ThemeConfig {
    fn default() -> (r: Self)
        ensures
            r.name@ == "default"@,
            opt_view(r.mode) == Some("dark"@),
            r.seed_color is None,
            r.path is None,
    {
        ThemeConfig {
            name: String::from_str("default"),
            mode: Some(String::from_str("dark")),
            seed_color: None,
            path: None,
        }
    }
}

/// Background visual configuration.
pub struct BackgroundConfig {
    /// Path to the background image.
    pub path: Option<String>,
    /// Fallback background color in HEX format.
    pub color: Option<String>,
    /// Gaussian blur intensity, as the IEEE-754 bit pattern of an `f32`.
    pub blur: Option<u32>,
}

/// The bit pattern of the `f32` value `10.0`, the default blur sigma.
pub const DEFAULT_BLUR_BITS: u32 = 0x4120_0000;

/// The bit pattern of the `f32` value `0.7`, the default opacity.
pub const DEFAULT_OPACITY_BITS: u32 = 0x3f33_3333;

impl Default for BackgroundConfig {
    fn default() -> (r: Self)
        ensures
            r.path is None,
            r.color is None,
            r.blur == Some(DEFAULT_BLUR_BITS),
    {
        BackgroundConfig { path: None, color: None, blur: Some(DEFAULT_BLUR_BITS) }
    }
}

/// Typography configuration for the large clock.
pub struct ClockConfig {
    /// Font family for the clock digits.
    pub font_family: Option<String>,
    /// Font weight (300, 500, 700, etc.).
    pub font_weight: Option<i32>,
    /// Font size in pixels.
    pub font_size: Option<i32>,
}

impl Default for ClockConfig {
    fn default() -> (r: Self)
        ensures
            opt_view(r.font_family) == Some("FlexRounded"@),
            r.font_weight == Some(500i32),
            r.font_size == Some(200i32),
    {
        ClockConfig {
            font_family: Some(String::from_str("FlexRounded")),
            font_weight: Some(500),
            font_size: Some(200),
        }
    }
}

/// General appearance settings including labels, fonts, and opacity.
pub struct AppearanceConfig {
    /// Greeting message displayed on the login card.
    pub greeting: Option<String>,
    /// Global UI font family.
    pub font_family: Option<String>,
    /// Transparency level (0.0 to 1.0), as the bit pattern of an `f32`.
    pub opacity: Option<u32>,
    /// Clock-specific typography settings.
    pub clock: ClockConfig,
    /// Material Design theme settings.
    pub theme: ThemeConfig,
    /// Background image and color settings.
    pub background: BackgroundConfig,
}

impl Default for AppearanceConfig {
    fn default() -> (r: Self)
        ensures
            opt_view(r.greeting) == Some("Welcome!"@),
            r.font_family is None,
            r.opacity == Some(DEFAULT_OPACITY_BITS),
            opt_view(r.clock.font_family) == Some("FlexRounded"@),
            r.clock.font_weight == Some(500i32),
            r.clock.font_size == Some(200i32),
            r.theme.name@ == "default"@,
            opt_view(r.theme.mode) == Some("dark"@),
            r.theme.seed_color is None,
            r.theme.path is None,
            r.background.path is None,
            r.background.color is None,
            r.background.blur == Some(DEFAULT_BLUR_BITS),
    {
        AppearanceConfig {
            greeting: Some(String::from_str("Welcome!")),
            font_family: None,
            opacity: Some(DEFAULT_OPACITY_BITS),
            clock: ClockConfig::default(),
            theme: ThemeConfig::default(),
            background: BackgroundConfig::default(),
        }
    }
}

/// Logging configuration for the greeter.
pub struct LoggingConfig {
    /// Tracing filter level ("info", "debug", etc.).
    pub level: Option<String>,
    /// Path to the log file.
    pub path: Option<String>,
}

impl Default for LoggingConfig {
    fn default() -> (r: Self)
        ensures
            opt_view(r.level) == Some("info"@),
            r.path is None,
    {
        LoggingConfig { level: Some(String::from_str("info")), path: None }
    }
}

/// Custom commands for system power management.
pub struct PowerConfig {
    /// Command to shut down the system.
    pub shutdown: Option<String>,
    /// Command to reboot the system.
    pub reboot: Option<String>,
    /// Command to suspend the system.
    pub sleep: Option<String>,
    /// Command to hibernate the system.
    pub hibernate: Option<String>,
}

impl Default for PowerConfig {
    fn default() -> (r: Self)
        ensures
            opt_view(r.shutdown) == Some("systemctl poweroff"@),
            opt_view(r.reboot) == Some("systemctl reboot"@),
            opt_view(r.sleep) == Some("systemctl suspend"@),
            opt_view(r.hibernate) == Some("systemctl hibernate"@),
    {
        PowerConfig {
            shutdown: Some(String::from_str("systemctl poweroff")),
            reboot: Some(String::from_str("systemctl reboot")),
            sleep: Some(String::from_str("systemctl suspend")),
            hibernate: Some(String::from_str("systemctl hibernate")),
        }
    }
}

/// Cache configuration settings.
pub struct CacheConfig {
    /// Directory to store generated themes and state.
    pub path: Option<String>,
}

impl Default for CacheConfig {
    fn default() -> (r: Self)
        ensures
            r.path is None,
    {
        CacheConfig { path: None }
    }
}

/// Root configuration object for mdgreet.
pub struct GreeterConfig {
    /// Appearance and typography settings.
    pub appearance: AppearanceConfig,
    /// Power management commands.
    pub power: PowerConfig,
    /// Logging settings.
    pub logging: LoggingConfig,
    /// Cache directory settings.
    pub cache: CacheConfig,
}

impl Default for GreeterConfig {
    fn default() -> (r: Self)
        ensures
            opt_view(r.appearance.greeting) == Some("Welcome!"@),
            r.appearance.font_family is None,
            r.appearance.opacity == Some(DEFAULT_OPACITY_BITS),
            opt_view(r.appearance.clock.font_family) == Some("FlexRounded"@),
            r.appearance.clock.font_weight == Some(500i32),
            r.appearance.clock.font_size == Some(200i32),
            r.appearance.theme.name@ == "default"@,
            opt_view(r.appearance.theme.mode) == Some("dark"@),
            r.appearance.theme.seed_color is None,
            r.appearance.theme.path is None,
            r.appearance.background.path is None,
            r.appearance.background.color is None,
            r.appearance.background.blur == Some(DEFAULT_BLUR_BITS),
            opt_view(r.power.shutdown) == Some("systemctl poweroff"@),
            opt_view(r.power.reboot) == Some("systemctl reboot"@),
            opt_view(r.power.sleep) == Some("systemctl suspend"@),
            opt_view(r.power.hibernate) == Some("systemctl hibernate"@),
            opt_view(r.logging.level) == Some("info"@),
            r.logging.path is None,
            r.cache.path is None,
    {
        GreeterConfig {
            appearance: AppearanceConfig::default(),
            power: PowerConfig::default(),
            logging: LoggingConfig::default(),
            cache: CacheConfig::default(),
        }
    }
}

/// A theme mode selects the dark scheme unless it is exactly "light".
pub open spec fn is_dark_mode_spec(mode: Option<Seq<char>>) -> bool {
    mode != Some("light"@)
}

impl GreeterConfig {
    /// Returns true unless the configured theme mode is "light": "dark",
    /// a missing mode and any unknown mode all select dark mode.
    pub fn is_dark_mode(&self) -> (r: bool)
        ensures
            r == is_dark_mode_spec(opt_view(self.appearance.theme.mode)),
    {
        match &self.appearance.theme.mode {
            Some(m) => {
                if eq_str(m.as_str(), "dark") {
                    proof {
                        reveal_strlit("dark");
                        reveal_strlit("light");
                        assert("dark"@[0] != "light"@[0]);
                    }
                    true
                } else if eq_str(m.as_str(), "light") {
                    false
                } else {
                    true
                }
            },
            None => true,
        }
    }
}

/// Resolves the final path to the configuration file: the one given on
/// the command line, else the default one.
pub fn resolve_config_path(cli_path: &Option<String>) -> (r: String)
    ensures
        r@ == match opt_view(*cli_path) {
            Some(p) => p,
            None => "/etc/greetd/mdgreet.toml"@,
        },
{
    match cli_path {
        Some(p) => p.clone(),
        None => paths::default_config_path(),
    }
}

} // verus!
