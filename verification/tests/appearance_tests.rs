use material_colors::theme::ThemeBuilder;
use mdgreet::app::appearance::{
    argb_to_hex, Appearance, Argb, BuiltinTheme, MaterialScheme, SeedSource, ThemeMetadata, ThemeSource,
};
use mdgreet::app::theme::{BuiltinTheme as OldBuiltin, Theme, ThemeChoice};
use mdgreet::config::GreeterConfig;
use mdgreet::utils::image::{blurred_file_name, extract_seed_color, needs_update, seed_color_of_image};

fn argb(alpha: u8, red: u8, green: u8, blue: u8) -> Argb {
    Argb { alpha, red, green, blue }
}

fn m3_colors(s: material_colors::scheme::Scheme) -> Vec<Argb> {
    s.into_iter().map(|(_, c)| argb(c.alpha, c.red, c.green, c.blue)).collect()
}

#[test]
fn test_argb_to_hex() {
    let a = argb(255, 255, 128, 64);
    assert_eq!(argb_to_hex(a), "#ff8040");
}

#[test]
fn hex_pads_and_drops_alpha() {
    assert_eq!(argb_to_hex(argb(0, 0, 10, 255)), "#000aff");
}

#[test]
fn test_material_scheme_macro() {
    let mut m3_scheme = ThemeBuilder::with_source(material_colors::color::Argb::new(255, 0, 0, 0))
        .build()
        .schemes
        .light;
    m3_scheme.primary = material_colors::color::Argb::new(255, 10, 20, 30);
    m3_scheme.on_primary = material_colors::color::Argb::new(255, 40, 50, 60);

    let scheme = MaterialScheme::from_m3(&m3_colors(m3_scheme));
    assert_eq!(scheme.primary, "#0a141e");
    assert_eq!(scheme.on_primary, "#28323c");
    assert_eq!(scheme.surface_tint, "#0a141e");
    assert_eq!(scheme.primary_fixed, "#0a141e");
    assert_eq!(scheme.on_primary_fixed_variant, "#28323c");
}

#[test]
fn test_load_builtin_theme() {
    assert!(Appearance::load_builtin_theme("default").is_some());
    assert!(Appearance::load_builtin_theme("slint").is_some());
    assert!(Appearance::load_builtin_theme("nonexistent").is_none());
    assert!(matches!(Appearance::load_builtin_theme("default"), Some(BuiltinTheme::Default)));
}

#[test]
fn generated_theme_matches_material_colors() {
    let seed = argb(255, 0x1e, 0x66, 0xf5);
    let theme = Appearance::generate_from_seed(seed);
    let built = ThemeBuilder::with_source(material_colors::color::Argb::new(255, 0x1e, 0x66, 0xf5)).build();
    let dark = m3_colors(built.schemes.dark);
    let light = m3_colors(built.schemes.light);
    assert_eq!(theme.schemes.dark.background, argb_to_hex(dark[45]));
    assert_eq!(theme.schemes.light.background, argb_to_hex(light[45]));
    assert_eq!(theme.schemes.dark.scrim, argb_to_hex(dark[48]));
    // the theme depends on the seed: it is not the seed itself everywhere
    assert_ne!(theme.schemes.light.background, theme.schemes.dark.background);
}

#[test]
fn theme_source_by_name() {
    let mut c = GreeterConfig::default();
    assert!(matches!(Appearance::theme_source(&c, false), ThemeSource::Builtin(ref n) if n == "default"));
    c.appearance.theme.name = "custom".to_string();
    assert!(matches!(Appearance::theme_source(&c, false), ThemeSource::Default));
    c.appearance.theme.path = Some("/t.json".to_string());
    assert!(matches!(Appearance::theme_source(&c, false), ThemeSource::Custom(ref p) if p == "/t.json"));
    c.appearance.theme.name = "auto".to_string();
    assert!(matches!(Appearance::theme_source(&c, true), ThemeSource::Default));
    c.appearance.background.path = Some("/w.png".to_string());
    assert!(matches!(Appearance::theme_source(&c, false), ThemeSource::Default));
    assert!(matches!(Appearance::theme_source(&c, true), ThemeSource::Dynamic));
    c.appearance.theme.name = "seed".to_string();
    assert!(matches!(Appearance::theme_source(&c, true), ThemeSource::Default));
    c.appearance.theme.seed_color = Some("#1e66f5".to_string());
    assert!(matches!(Appearance::theme_source(&c, false), ThemeSource::Dynamic));
}

#[test]
fn dynamic_theme_metadata() {
    let mut c = GreeterConfig::default();
    c.appearance.theme.name = "auto".to_string();
    let m = Appearance::current_metadata(&c, 42);
    assert_eq!((m.mode.as_str(), m.wallpaper_path.as_str(), m.wallpaper_mtime, m.seed_color.as_str()), ("auto", "", 0, ""));
    c.appearance.background.path = Some("/w.png".to_string());
    let m2 = Appearance::current_metadata(&c, 42);
    assert_eq!(m2.wallpaper_mtime, 42);
    assert!(Appearance::cache_is_valid(&Some(Appearance::current_metadata(&c, 42)), &m2));
    assert!(!Appearance::cache_is_valid(&Some(Appearance::current_metadata(&c, 43)), &m2));
    assert!(!Appearance::cache_is_valid(&None, &m2));
    assert!(matches!(Appearance::seed_source(&m2), SeedSource::Wallpaper(ref p) if p == "/w.png"));
    assert!(matches!(Appearance::seed_source(&m), SeedSource::Unavailable));
    let seed_meta = ThemeMetadata {
        mode: "seed".to_string(),
        wallpaper_path: "/w.png".to_string(),
        wallpaper_mtime: 1,
        seed_color: "#112233".to_string(),
    };
    assert!(matches!(Appearance::seed_source(&seed_meta), SeedSource::Color(ref s) if s == "#112233"));
}

#[test]
fn fallback_color_choice() {
    let mut c = GreeterConfig::default();
    let theme = Appearance::generate_from_seed(argb(255, 200, 10, 10));
    assert_eq!(Appearance::fallback_color(&c, &theme), theme.schemes.dark.background);
    c.appearance.theme.mode = Some("light".to_string());
    assert_eq!(Appearance::fallback_color(&c, &theme), theme.schemes.light.background);
    c.appearance.background.color = Some("#11111b".to_string());
    assert_eq!(Appearance::fallback_color(&c, &theme), "#11111b");
}

#[test]
fn seed_color_of_a_red_image() {
    let mut rgba = Vec::new();
    for _ in 0..(16 * 16) {
        rgba.extend_from_slice(&[220, 20, 30, 255]);
    }
    let [r, g, b, a] = extract_seed_color(&rgba);
    assert_eq!(a, 255);
    assert!(r > g && r > b);
}

#[test]
fn blurred_copy_naming_and_refresh() {
    assert_eq!(blurred_file_name("bg.png", 100), "bg.png_blur_100.png");
    assert_eq!(blurred_file_name("x.jpg", 0), "x.jpg_blur_0.png");
    assert_eq!(blurred_file_name("x.jpg", -15), "x.jpg_blur_-15.png");
    assert!(needs_update(false, 0, 0));
    assert!(needs_update(true, 2, 1));
    assert!(!needs_update(true, 1, 1));
}

#[test]
fn old_theme_loader() {
    assert!(matches!(Theme::load_builtin_theme("red"), Some(OldBuiltin::Red)));
    assert!(Theme::load_builtin_theme("default").is_none());
    assert!(matches!(Theme::init("unknown", None), ThemeChoice::Builtin(OldBuiltin::Purple)));
    assert!(matches!(Theme::init("green", None), ThemeChoice::Builtin(OldBuiltin::Green)));
    assert!(matches!(Theme::init("custom", None), ThemeChoice::Custom(ref p) if p == "./material-theme.json"));
    assert!(matches!(Theme::init("custom", Some("/etc/m".to_string())), ThemeChoice::Custom(ref p) if p == "/etc/m/material-theme.json"));
}

#[test]
fn theme_in_use_falls_back_to_default() {
    let loaded = || Some(Appearance::generate_from_seed(argb(255, 200, 10, 10)));
    let default = || Appearance::generate_from_seed(argb(255, 10, 10, 200));
    let red = Appearance::generate_from_seed(argb(255, 200, 10, 10)).schemes.dark.primary;
    let blue = Appearance::generate_from_seed(argb(255, 10, 10, 200)).schemes.dark.primary;
    assert_ne!(red, blue);
    let used = Appearance::theme_in_use(&ThemeSource::Dynamic, loaded(), default());
    assert_eq!(used.schemes.dark.primary, red);
    let used = Appearance::theme_in_use(&ThemeSource::Custom("/t.json".to_string()), None, default());
    assert_eq!(used.schemes.dark.primary, blue);
    let used = Appearance::theme_in_use(&ThemeSource::Default, loaded(), default());
    assert_eq!(used.schemes.dark.primary, blue);
    let used = Appearance::theme_in_use(&ThemeSource::Builtin("default".to_string()), loaded(), default());
    assert_eq!(used.schemes.dark.primary, red);
}

#[test]
fn seed_color_of_an_encoded_image() {
    let img = image::RgbaImage::from_pixel(40, 20, image::Rgba([220, 20, 30, 255]));
    let mut png = std::io::Cursor::new(Vec::new());
    img.write_to(&mut png, image::ImageFormat::Png).unwrap();
    let bytes = png.into_inner();
    let mut rgba = Vec::new();
    for _ in 0..(128 * 128) {
        rgba.extend_from_slice(&[220, 20, 30, 255]);
    }
    let from_file = seed_color_of_image(&bytes).expect("a PNG decodes");
    assert_eq!(from_file, extract_seed_color(&rgba));
    let [r, g, b, a] = from_file;
    assert_eq!(a, 255);
    assert!(r > g && r > b);
}

#[test]
fn seed_color_of_bytes_that_are_no_image() {
    assert_eq!(seed_color_of_image(&b"not an image".to_vec()), None);
    assert_eq!(seed_color_of_image(&Vec::new()), None);
}
