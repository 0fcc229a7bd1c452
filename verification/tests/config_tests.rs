use mdgreet::config::{
    resolve_config_path, AppearanceConfig, GreeterConfig, LoggingConfig, PowerConfig, ThemeConfig,
    DEFAULT_BLUR_BITS, DEFAULT_OPACITY_BITS,
};
use mdgreet::utils::paths::{default_cache_dir, default_config_path, default_log_path};

#[test]
fn default_config_values() {
    let c = GreeterConfig::default();
    assert_eq!(c.appearance.greeting.as_deref(), Some("Welcome!"));
    assert_eq!(c.appearance.font_family, None);
    assert_eq!(c.appearance.opacity.map(f32::from_bits), Some(0.7f32));
    assert_eq!(c.appearance.clock.font_family.as_deref(), Some("FlexRounded"));
    assert_eq!(c.appearance.clock.font_weight, Some(500));
    assert_eq!(c.appearance.clock.font_size, Some(200));
    assert_eq!(c.appearance.theme.name, "default");
    assert_eq!(c.appearance.theme.mode.as_deref(), Some("dark"));
    assert_eq!(c.appearance.background.blur.map(f32::from_bits), Some(10.0f32));
    assert_eq!(c.power.shutdown.as_deref(), Some("systemctl poweroff"));
    assert_eq!(c.power.reboot.as_deref(), Some("systemctl reboot"));
    assert_eq!(c.power.sleep.as_deref(), Some("systemctl suspend"));
    assert_eq!(c.power.hibernate.as_deref(), Some("systemctl hibernate"));
    assert_eq!(c.logging.level.as_deref(), Some("info"));
    assert_eq!(c.cache.path, None);
}

#[test]
fn float_defaults_are_bit_patterns() {
    assert_eq!(f32::from_bits(DEFAULT_BLUR_BITS), 10.0f32);
    assert_eq!(f32::from_bits(DEFAULT_OPACITY_BITS), 0.7f32);
    assert_eq!(AppearanceConfig::default().background.blur, Some(10.0f32.to_bits()));
}

#[test]
fn section_defaults() {
    assert_eq!(ThemeConfig::default().seed_color, None);
    assert_eq!(ThemeConfig::default().path, None);
    assert_eq!(LoggingConfig::default().path, None);
    assert_eq!(PowerConfig::default().sleep.as_deref(), Some("systemctl suspend"));
}

#[test]
fn dark_mode_unless_light() {
    let mut c = GreeterConfig::default();
    assert!(c.is_dark_mode());
    c.appearance.theme.mode = Some("light".to_string());
    assert!(!c.is_dark_mode());
    c.appearance.theme.mode = Some("dark".to_string());
    assert!(c.is_dark_mode());
    c.appearance.theme.mode = Some("sepia".to_string());
    assert!(c.is_dark_mode());
    c.appearance.theme.mode = None;
    assert!(c.is_dark_mode());
}

#[test]
fn config_path_from_cli_or_default() {
    assert_eq!(resolve_config_path(&None), "/etc/greetd/mdgreet.toml");
    assert_eq!(resolve_config_path(&Some("/tmp/x.toml".to_string())), "/tmp/x.toml");
}

#[test]
fn default_paths() {
    assert_eq!(default_config_path(), "/etc/greetd/mdgreet.toml");
    assert_eq!(default_cache_dir(), "/var/cache/mdgreet");
    assert_eq!(default_log_path(), "/var/log/mdgreet/mdgreet.log");
}
