use vstd::prelude::*;
use vstd::string::*;
use crate::config::{opt_view, GreeterConfig};
use crate::utils::text::{eq_str, push_char};

verus! {

/// A colour with alpha, red, green and blue channels.
#[derive(Clone, Copy)]
pub struct Argb {
    pub alpha: u8,
    pub red: u8,
    pub green: u8,
    pub blue: u8,
}

impl Argb {
    /// The channels as a tuple (alpha, red, green, blue).
    pub open spec fn tuple(self) -> (u8, u8, u8, u8) {
        (self.alpha, self.red, self.green, self.blue)
    }
}

/// The channels of each colour of a list.
pub open spec fn argb_tuples(s: Seq<Argb>) -> Seq<(u8, u8, u8, u8)> {
    s.map_values(|c: Argb| c.tuple())
}

/// The lowercase hexadecimal digit for `d < 16`.
pub open spec fn hex_digit(d: u8) -> char {
    if d < 10 {
        ((48 + d) as u8) as char
    } else {
        ((87 + d) as u8) as char
    }
}

/// `#rrggbb` in lowercase hexadecimal: the colour without its alpha.
pub open spec fn hex_color(c: (u8, u8, u8, u8)) -> Seq<char> {
    seq![
        '#',
        hex_digit(c.1 / 16),
        hex_digit(c.1 % 16),
        hex_digit(c.2 / 16),
        hex_digit(c.2 % 16),
        hex_digit(c.3 / 16),
        hex_digit(c.3 % 16),
    ]
}

/// Law: the hexadecimal digits of 0 to 15 are '0' to '9' and then 'a' to
/// 'f' (lowercase).
pub proof fn lemma_hex_digits()
    ensures
        hex_digit(0) == '0',
        hex_digit(1) == '1',
        hex_digit(2) == '2',
        hex_digit(3) == '3',
        hex_digit(4) == '4',
        hex_digit(5) == '5',
        hex_digit(6) == '6',
        hex_digit(7) == '7',
        hex_digit(8) == '8',
        hex_digit(9) == '9',
        hex_digit(10) == 'a',
        hex_digit(11) == 'b',
        hex_digit(12) == 'c',
        hex_digit(13) == 'd',
        hex_digit(14) == 'e',
        hex_digit(15) == 'f',
{
}

/// Law: the colour text is `#` followed by two hexadecimal digits each for
/// red, green and blue, high digit first; the alpha channel is left out.
pub proof fn lemma_hex_color_layout(c: (u8, u8, u8, u8))
    ensures
        hex_color(c).len() == 7,
        hex_color(c)[0] == '#',
        hex_color(c)[1] == hex_digit(c.1 / 16) && hex_color(c)[2] == hex_digit(c.1 % 16),
        hex_color(c)[3] == hex_digit(c.2 / 16) && hex_color(c)[4] == hex_digit(c.2 % 16),
        hex_color(c)[5] == hex_digit(c.3 / 16) && hex_color(c)[6] == hex_digit(c.3 % 16),
        forall|a: u8| hex_color((a, c.1, c.2, c.3)) == hex_color(c),
{
}

fn push_hex_digit(s: &mut String, d: u8)
    requires
        d < 16,
    ensures
        final(s)@ == old(s)@.push(hex_digit(d)),
{
    if d < 10 {
        push_char(s, (48u8 + d) as char);
    } else {
        push_char(s, (87u8 + d) as char);
    }
}

/// Converts a colour to a HEX string `#rrggbb` (lowercase, no alpha).
pub fn argb_to_hex(argb: Argb) -> (r: String)
    ensures
        r@ == hex_color(argb.tuple()),
{
    let mut s = String::new();
    push_char(&mut s, '#');
    push_hex_digit(&mut s, argb.red / 16);
    push_hex_digit(&mut s, argb.red % 16);
    push_hex_digit(&mut s, argb.green / 16);
    push_hex_digit(&mut s, argb.green % 16);
    push_hex_digit(&mut s, argb.blue / 16);
    push_hex_digit(&mut s, argb.blue % 16);
    assert(s@ =~= hex_color(argb.tuple()));
    s
}

/// A Material Design colour scheme: every colour role as a HEX or CSS
/// colour string.
pub struct MaterialScheme {
    pub primary: String,
    pub surface_tint: String,
    pub on_primary: String,
    pub primary_container: String,
    pub on_primary_container: String,
    pub secondary: String,
    pub on_secondary: String,
    pub secondary_container: String,
    pub on_secondary_container: String,
    pub tertiary: String,
    pub on_tertiary: String,
    pub tertiary_container: String,
    pub on_tertiary_container: String,
    pub error: String,
    pub on_error: String,
    pub error_container: String,
    pub on_error_container: String,
    pub background: String,
    pub on_background: String,
    pub surface: String,
    pub on_surface: String,
    pub surface_variant: String,
    pub on_surface_variant: String,
    pub outline: String,
    pub outline_variant: String,
    pub shadow: String,
    pub scrim: String,
    pub inverse_surface: String,
    pub inverse_on_surface: String,
    pub inverse_primary: String,
    pub primary_fixed: String,
    pub on_primary_fixed: String,
    pub primary_fixed_dim: String,
    pub on_primary_fixed_variant: String,
    pub secondary_fixed: String,
    pub on_secondary_fixed: String,
    pub secondary_fixed_dim: String,
    pub on_secondary_fixed_variant: String,
    pub tertiary_fixed: String,
    pub on_tertiary_fixed: String,
    pub tertiary_fixed_dim: String,
    pub on_tertiary_fixed_variant: String,
    pub surface_dim: String,
    pub surface_bright: String,
    pub surface_container_lowest: String,
    pub surface_container_low: String,
    pub surface_container: String,
    pub surface_container_high: String,
    pub surface_container_highest: String,
}

/// Each role of `s` holds the colour that a material-colors scheme lists
/// for it in `c` (in the order `Scheme::into_iter` lists them); several
/// roles share a colour.
/// `s` holds, as `#rrggbb`, the colours of a material-colors scheme listed
/// in `Scheme::into_iter` order: each field the colour the greeter takes
/// for it (the fixed roles reuse the main ones, as the greeter maps them).
pub open spec fn scheme_from_colors(s: MaterialScheme, c: Seq<(u8, u8, u8, u8)>) -> bool {
    &&& s.primary@ == hex_color(c[0])
    &&& s.surface_tint@ == hex_color(c[0])
    &&& s.on_primary@ == hex_color(c[1])
    &&& s.primary_container@ == hex_color(c[2])
    &&& s.on_primary_container@ == hex_color(c[3])
    &&& s.secondary@ == hex_color(c[9])
    &&& s.on_secondary@ == hex_color(c[10])
    &&& s.secondary_container@ == hex_color(c[11])
    &&& s.on_secondary_container@ == hex_color(c[12])
    &&& s.tertiary@ == hex_color(c[17])
    &&& s.on_tertiary@ == hex_color(c[18])
    &&& s.tertiary_container@ == hex_color(c[19])
    &&& s.on_tertiary_container@ == hex_color(c[20])
    &&& s.error@ == hex_color(c[25])
    &&& s.on_error@ == hex_color(c[26])
    &&& s.error_container@ == hex_color(c[27])
    &&& s.on_error_container@ == hex_color(c[28])
    &&& s.background@ == hex_color(c[45])
    &&& s.on_background@ == hex_color(c[46])
    &&& s.surface@ == hex_color(c[30])
    &&& s.on_surface@ == hex_color(c[38])
    &&& s.surface_variant@ == hex_color(c[44])
    &&& s.on_surface_variant@ == hex_color(c[39])
    &&& s.outline@ == hex_color(c[40])
    &&& s.outline_variant@ == hex_color(c[41])
    &&& s.shadow@ == hex_color(c[47])
    &&& s.scrim@ == hex_color(c[48])
    &&& s.inverse_surface@ == hex_color(c[42])
    &&& s.inverse_on_surface@ == hex_color(c[43])
    &&& s.inverse_primary@ == hex_color(c[4])
    &&& s.primary_fixed@ == hex_color(c[0])
    &&& s.on_primary_fixed@ == hex_color(c[1])
    &&& s.primary_fixed_dim@ == hex_color(c[0])
    &&& s.on_primary_fixed_variant@ == hex_color(c[1])
    &&& s.secondary_fixed@ == hex_color(c[9])
    &&& s.on_secondary_fixed@ == hex_color(c[10])
    &&& s.secondary_fixed_dim@ == hex_color(c[9])
    &&& s.on_secondary_fixed_variant@ == hex_color(c[16])
    &&& s.tertiary_fixed@ == hex_color(c[17])
    &&& s.on_tertiary_fixed@ == hex_color(c[18])
    &&& s.tertiary_fixed_dim@ == hex_color(c[17])
    &&& s.on_tertiary_fixed_variant@ == hex_color(c[24])
    &&& s.surface_dim@ == hex_color(c[30])
    &&& s.surface_bright@ == hex_color(c[32])
    &&& s.surface_container_lowest@ == hex_color(c[33])
    &&& s.surface_container_low@ == hex_color(c[34])
    &&& s.surface_container@ == hex_color(c[35])
    &&& s.surface_container_high@ == hex_color(c[36])
    &&& s.surface_container_highest@ == hex_color(c[37])
}

/// The colour roles of a material-colors `Scheme`.
pub enum SchemeRole {
    Primary,
    OnPrimary,
    PrimaryContainer,
    OnPrimaryContainer,
    InversePrimary,
    PrimaryFixed,
    PrimaryFixedDim,
    OnPrimaryFixed,
    OnPrimaryFixedVariant,
    Secondary,
    OnSecondary,
    SecondaryContainer,
    OnSecondaryContainer,
    SecondaryFixed,
    SecondaryFixedDim,
    OnSecondaryFixed,
    OnSecondaryFixedVariant,
    Tertiary,
    OnTertiary,
    TertiaryContainer,
    OnTertiaryContainer,
    TertiaryFixed,
    TertiaryFixedDim,
    OnTertiaryFixed,
    OnTertiaryFixedVariant,
    Error,
    OnError,
    ErrorContainer,
    OnErrorContainer,
    SurfaceDim,
    Surface,
    SurfaceTint,
    SurfaceBright,
    SurfaceContainerLowest,
    SurfaceContainerLow,
    SurfaceContainer,
    SurfaceContainerHigh,
    SurfaceContainerHighest,
    OnSurface,
    OnSurfaceVariant,
    Outline,
    OutlineVariant,
    InverseSurface,
    InverseOnSurface,
    SurfaceVariant,
    Background,
    OnBackground,
    Shadow,
    Scrim,
}

/// The position of a role among the colours `Scheme::into_iter` of
/// material-colors lists (primary, on_primary, primary_container, ...,
/// shadow, scrim), counted from 0.
pub open spec fn scheme_role_position(r: SchemeRole) -> int {
    match r {
        SchemeRole::Primary => 0,
        SchemeRole::OnPrimary => 1,
        SchemeRole::PrimaryContainer => 2,
        SchemeRole::OnPrimaryContainer => 3,
        SchemeRole::InversePrimary => 4,
        SchemeRole::PrimaryFixed => 5,
        SchemeRole::PrimaryFixedDim => 6,
        SchemeRole::OnPrimaryFixed => 7,
        SchemeRole::OnPrimaryFixedVariant => 8,
        SchemeRole::Secondary => 9,
        SchemeRole::OnSecondary => 10,
        SchemeRole::SecondaryContainer => 11,
        SchemeRole::OnSecondaryContainer => 12,
        SchemeRole::SecondaryFixed => 13,
        SchemeRole::SecondaryFixedDim => 14,
        SchemeRole::OnSecondaryFixed => 15,
        SchemeRole::OnSecondaryFixedVariant => 16,
        SchemeRole::Tertiary => 17,
        SchemeRole::OnTertiary => 18,
        SchemeRole::TertiaryContainer => 19,
        SchemeRole::OnTertiaryContainer => 20,
        SchemeRole::TertiaryFixed => 21,
        SchemeRole::TertiaryFixedDim => 22,
        SchemeRole::OnTertiaryFixed => 23,
        SchemeRole::OnTertiaryFixedVariant => 24,
        SchemeRole::Error => 25,
        SchemeRole::OnError => 26,
        SchemeRole::ErrorContainer => 27,
        SchemeRole::OnErrorContainer => 28,
        SchemeRole::SurfaceDim => 29,
        SchemeRole::Surface => 30,
        SchemeRole::SurfaceTint => 31,
        SchemeRole::SurfaceBright => 32,
        SchemeRole::SurfaceContainerLowest => 33,
        SchemeRole::SurfaceContainerLow => 34,
        SchemeRole::SurfaceContainer => 35,
        SchemeRole::SurfaceContainerHigh => 36,
        SchemeRole::SurfaceContainerHighest => 37,
        SchemeRole::OnSurface => 38,
        SchemeRole::OnSurfaceVariant => 39,
        SchemeRole::Outline => 40,
        SchemeRole::OutlineVariant => 41,
        SchemeRole::InverseSurface => 42,
        SchemeRole::InverseOnSurface => 43,
        SchemeRole::SurfaceVariant => 44,
        SchemeRole::Background => 45,
        SchemeRole::OnBackground => 46,
        SchemeRole::Shadow => 47,
        SchemeRole::Scrim => 48,
    }
}

/// Law: each role of a scheme built from the colours material-colors
/// lists holds, as `#rrggbb`, the material-colors colour of the role
/// with the same name (the fixed roles and the surface tint take the
/// main role they derive from: primary_fixed and primary_fixed_dim the
/// primary colour, surface_dim the surface colour, and so on).
pub proof fn lemma_scheme_roles(s: MaterialScheme, c: Seq<(u8, u8, u8, u8)>)
    requires
        scheme_from_colors(s, c),
    ensures
        s.primary@ == hex_color(c[scheme_role_position(SchemeRole::Primary)]),
        s.surface_tint@ == hex_color(c[scheme_role_position(SchemeRole::Primary)]),
        s.on_primary@ == hex_color(c[scheme_role_position(SchemeRole::OnPrimary)]),
        s.primary_container@ == hex_color(c[scheme_role_position(SchemeRole::PrimaryContainer)]),
        s.on_primary_container@ == hex_color(c[scheme_role_position(SchemeRole::OnPrimaryContainer)]),
        s.secondary@ == hex_color(c[scheme_role_position(SchemeRole::Secondary)]),
        s.on_secondary@ == hex_color(c[scheme_role_position(SchemeRole::OnSecondary)]),
        s.secondary_container@ == hex_color(c[scheme_role_position(SchemeRole::SecondaryContainer)]),
        s.on_secondary_container@ == hex_color(c[scheme_role_position(SchemeRole::OnSecondaryContainer)]),
        s.tertiary@ == hex_color(c[scheme_role_position(SchemeRole::Tertiary)]),
        s.on_tertiary@ == hex_color(c[scheme_role_position(SchemeRole::OnTertiary)]),
        s.tertiary_container@ == hex_color(c[scheme_role_position(SchemeRole::TertiaryContainer)]),
        s.on_tertiary_container@ == hex_color(c[scheme_role_position(SchemeRole::OnTertiaryContainer)]),
        s.error@ == hex_color(c[scheme_role_position(SchemeRole::Error)]),
        s.on_error@ == hex_color(c[scheme_role_position(SchemeRole::OnError)]),
        s.error_container@ == hex_color(c[scheme_role_position(SchemeRole::ErrorContainer)]),
        s.on_error_container@ == hex_color(c[scheme_role_position(SchemeRole::OnErrorContainer)]),
        s.background@ == hex_color(c[scheme_role_position(SchemeRole::Background)]),
        s.on_background@ == hex_color(c[scheme_role_position(SchemeRole::OnBackground)]),
        s.surface@ == hex_color(c[scheme_role_position(SchemeRole::Surface)]),
        s.on_surface@ == hex_color(c[scheme_role_position(SchemeRole::OnSurface)]),
        s.surface_variant@ == hex_color(c[scheme_role_position(SchemeRole::SurfaceVariant)]),
        s.on_surface_variant@ == hex_color(c[scheme_role_position(SchemeRole::OnSurfaceVariant)]),
        s.outline@ == hex_color(c[scheme_role_position(SchemeRole::Outline)]),
        s.outline_variant@ == hex_color(c[scheme_role_position(SchemeRole::OutlineVariant)]),
        s.shadow@ == hex_color(c[scheme_role_position(SchemeRole::Shadow)]),
        s.scrim@ == hex_color(c[scheme_role_position(SchemeRole::Scrim)]),
        s.inverse_surface@ == hex_color(c[scheme_role_position(SchemeRole::InverseSurface)]),
        s.inverse_on_surface@ == hex_color(c[scheme_role_position(SchemeRole::InverseOnSurface)]),
        s.inverse_primary@ == hex_color(c[scheme_role_position(SchemeRole::InversePrimary)]),
        s.primary_fixed@ == hex_color(c[scheme_role_position(SchemeRole::Primary)]),
        s.on_primary_fixed@ == hex_color(c[scheme_role_position(SchemeRole::OnPrimary)]),
        s.primary_fixed_dim@ == hex_color(c[scheme_role_position(SchemeRole::Primary)]),
        s.on_primary_fixed_variant@ == hex_color(c[scheme_role_position(SchemeRole::OnPrimary)]),
        s.secondary_fixed@ == hex_color(c[scheme_role_position(SchemeRole::Secondary)]),
        s.on_secondary_fixed@ == hex_color(c[scheme_role_position(SchemeRole::OnSecondary)]),
        s.secondary_fixed_dim@ == hex_color(c[scheme_role_position(SchemeRole::Secondary)]),
        s.on_secondary_fixed_variant@ == hex_color(c[scheme_role_position(SchemeRole::OnSecondaryFixedVariant)]),
        s.tertiary_fixed@ == hex_color(c[scheme_role_position(SchemeRole::Tertiary)]),
        s.on_tertiary_fixed@ == hex_color(c[scheme_role_position(SchemeRole::OnTertiary)]),
        s.tertiary_fixed_dim@ == hex_color(c[scheme_role_position(SchemeRole::Tertiary)]),
        s.on_tertiary_fixed_variant@ == hex_color(c[scheme_role_position(SchemeRole::OnTertiaryFixedVariant)]),
        s.surface_dim@ == hex_color(c[scheme_role_position(SchemeRole::Surface)]),
        s.surface_bright@ == hex_color(c[scheme_role_position(SchemeRole::SurfaceBright)]),
        s.surface_container_lowest@ == hex_color(c[scheme_role_position(SchemeRole::SurfaceContainerLowest)]),
        s.surface_container_low@ == hex_color(c[scheme_role_position(SchemeRole::SurfaceContainerLow)]),
        s.surface_container@ == hex_color(c[scheme_role_position(SchemeRole::SurfaceContainer)]),
        s.surface_container_high@ == hex_color(c[scheme_role_position(SchemeRole::SurfaceContainerHigh)]),
        s.surface_container_highest@ == hex_color(c[scheme_role_position(SchemeRole::SurfaceContainerHighest)]),
{
}

/// Container for both dark and light color schemes.
pub struct MaterialSchemes {
    pub dark: MaterialScheme,
    pub light: MaterialScheme,
}

/// Full Material Design theme structure.
pub struct MaterialTheme {
    pub schemes: MaterialSchemes,
}

impl MaterialScheme {
    /// The scheme of the 49 colours of a material-colors scheme, in the
    /// order `Scheme::into_iter` lists them.
    pub fn from_m3(colors: &Vec<Argb>) -> (r: Self)
        requires
            colors@.len() == 49,
        ensures
            scheme_from_colors(r, argb_tuples(colors@)),
    {
        MaterialScheme {
            primary: argb_to_hex(colors[0]),
            surface_tint: argb_to_hex(colors[0]),
            on_primary: argb_to_hex(colors[1]),
            primary_container: argb_to_hex(colors[2]),
            on_primary_container: argb_to_hex(colors[3]),
            secondary: argb_to_hex(colors[9]),
            on_secondary: argb_to_hex(colors[10]),
            secondary_container: argb_to_hex(colors[11]),
            on_secondary_container: argb_to_hex(colors[12]),
            tertiary: argb_to_hex(colors[17]),
            on_tertiary: argb_to_hex(colors[18]),
            tertiary_container: argb_to_hex(colors[19]),
            on_tertiary_container: argb_to_hex(colors[20]),
            error: argb_to_hex(colors[25]),
            on_error: argb_to_hex(colors[26]),
            error_container: argb_to_hex(colors[27]),
            on_error_container: argb_to_hex(colors[28]),
            background: argb_to_hex(colors[45]),
            on_background: argb_to_hex(colors[46]),
            surface: argb_to_hex(colors[30]),
            on_surface: argb_to_hex(colors[38]),
            surface_variant: argb_to_hex(colors[44]),
            on_surface_variant: argb_to_hex(colors[39]),
            outline: argb_to_hex(colors[40]),
            outline_variant: argb_to_hex(colors[41]),
            shadow: argb_to_hex(colors[47]),
            scrim: argb_to_hex(colors[48]),
            inverse_surface: argb_to_hex(colors[42]),
            inverse_on_surface: argb_to_hex(colors[43]),
            inverse_primary: argb_to_hex(colors[4]),
            primary_fixed: argb_to_hex(colors[0]),
            on_primary_fixed: argb_to_hex(colors[1]),
            primary_fixed_dim: argb_to_hex(colors[0]),
            on_primary_fixed_variant: argb_to_hex(colors[1]),
            secondary_fixed: argb_to_hex(colors[9]),
            on_secondary_fixed: argb_to_hex(colors[10]),
            secondary_fixed_dim: argb_to_hex(colors[9]),
            on_secondary_fixed_variant: argb_to_hex(colors[16]),
            tertiary_fixed: argb_to_hex(colors[17]),
            on_tertiary_fixed: argb_to_hex(colors[18]),
            tertiary_fixed_dim: argb_to_hex(colors[17]),
            on_tertiary_fixed_variant: argb_to_hex(colors[24]),
            surface_dim: argb_to_hex(colors[30]),
            surface_bright: argb_to_hex(colors[32]),
            surface_container_lowest: argb_to_hex(colors[33]),
            surface_container_low: argb_to_hex(colors[34]),
            surface_container: argb_to_hex(colors[35]),
            surface_container_high: argb_to_hex(colors[36]),
            surface_container_highest: argb_to_hex(colors[37]),
        }
    }
}

/// The colours material-colors gives for the light and the dark scheme
/// of the theme built from a source colour, 49 each, in the order
/// `Scheme::into_iter` lists them.
pub uninterp spec fn m3_theme_colors(seed: (u8, u8, u8, u8)) -> (Seq<(u8, u8, u8, u8)>, Seq<(u8, u8, u8, u8)>);

/// `ThemeBuilder::with_source(seed).build()` of material-colors: hands
/// out the colours of the light and the dark scheme (`Scheme::into_iter`,
/// which always yields 49 of them).
#[verifier::external_body]
fn build_m3_theme(seed: Argb) -> (r: (Vec<Argb>, Vec<Argb>))
    ensures
        argb_tuples(r.0@) == m3_theme_colors(seed.tuple()).0,
        argb_tuples(r.1@) == m3_theme_colors(seed.tuple()).1,
        r.0@.len() == 49,
        r.1@.len() == 49,
{
    let source = material_colors::color::Argb { alpha: seed.alpha, red: seed.red, green: seed.green, blue: seed.blue };
    let theme = material_colors::theme::ThemeBuilder::with_source(source).build();
    let conv = |c: material_colors::color::Argb| Argb { alpha: c.alpha, red: c.red, green: c.green, blue: c.blue };
    let light = theme.schemes.light.into_iter().map(|(_, c)| conv(c)).collect();
    let dark = theme.schemes.dark.into_iter().map(|(_, c)| conv(c)).collect();
    (light, dark)
}

/// Controller for the visual appearance of the greeter.
pub struct Appearance;

impl Appearance {
    /// Creates a full Material Theme from a source ARGB seed color.
    pub fn generate_from_seed(seed: Argb) -> (r: MaterialTheme)
        ensures
            scheme_from_colors(r.schemes.light, m3_theme_colors(seed.tuple()).0),
            scheme_from_colors(r.schemes.dark, m3_theme_colors(seed.tuple()).1),
    {
        let (light_colors, dark_colors) = build_m3_theme(seed);
        let light = MaterialScheme::from_m3(&light_colors);
        let dark = MaterialScheme::from_m3(&dark_colors);
        MaterialTheme { schemes: MaterialSchemes { light, dark } }
    }
}

/// The themes built into the greeter.
pub enum BuiltinTheme {
    /// The default theme (also offered as "slint").
    Default,
}

/// Where the theme comes from, as the configuration selects it.
pub enum ThemeSource {
    /// A JSON theme file at this path.
    Custom(String),
    /// A theme generated from the wallpaper or a seed colour.
    Dynamic,
    /// A built-in theme of this name.
    Builtin(String),
    /// The default built-in theme.
    Default,
}

/// Metadata used to track and invalidate dynamic themes.
pub struct ThemeMetadata {
    /// The theme name the theme was generated for ("auto" or "seed").
    pub mode: String,
    /// The wallpaper it was generated from; empty for none.
    pub wallpaper_path: String,
    /// The wallpaper's modification time in seconds since the epoch; 0
    /// when there is no wallpaper or it cannot be read.
    pub wallpaper_mtime: u64,
    /// The seed colour it was generated from; empty for none.
    pub seed_color: String,
}

/// Where the seed colour of a dynamic theme comes from.
pub enum SeedSource {
    /// This colour string, to be parsed.
    Color(String),
    /// The dominant colour of this wallpaper image.
    Wallpaper(String),
    /// Nowhere: no theme can be generated.
    Unavailable,
}

/// An optional string, or the empty one.
pub open spec fn or_empty(o: Option<Seq<char>>) -> Seq<char> {
    match o {
        Some(s) => s,
        None => Seq::empty(),
    }
}

/// Equal metadata: the same fields.
pub open spec fn same_metadata(a: ThemeMetadata, b: ThemeMetadata) -> bool {
    &&& a.mode@ == b.mode@
    &&& a.wallpaper_path@ == b.wallpaper_path@
    &&& a.wallpaper_mtime == b.wallpaper_mtime
    &&& a.seed_color@ == b.seed_color@
}

/// `m` is the metadata of the dynamic theme `config` asks for, given the
/// wallpaper's modification time: the theme name, the wallpaper path (or
/// nothing), its time (0 without a wallpaper) and the seed colour (or
/// nothing).
pub open spec fn metadata_for(config: GreeterConfig, wallpaper_mtime: u64, m: ThemeMetadata) -> bool {
    &&& m.mode@ == config.appearance.theme.name@
    &&& m.wallpaper_path@ == or_empty(opt_view(config.appearance.background.path))
    &&& m.wallpaper_mtime == if m.wallpaper_path@.len() == 0 {
        0
    } else {
        wallpaper_mtime
    }
    &&& m.seed_color@ == or_empty(opt_view(config.appearance.theme.seed_color))
}

/// Law (a generated theme is reused): the metadata stored with a theme
/// generated for a configuration and wallpaper time, and the metadata a
/// later start computes for the same configuration and wallpaper time,
/// are the same, so the stored theme counts as valid.
pub proof fn lemma_generated_theme_reused(
    config: GreeterConfig,
    wallpaper_mtime: u64,
    stored: ThemeMetadata,
    current: ThemeMetadata,
)
    requires
        metadata_for(config, wallpaper_mtime, stored),
        metadata_for(config, wallpaper_mtime, current),
    ensures
        same_metadata(stored, current),
{
}

/// Law: the metadata of the theme "seed" with a configured seed colour
/// records that colour, so the theme is generated from it (`seed_source`
/// gives `Color` of it).
pub proof fn lemma_seed_metadata_records_seed(config: GreeterConfig, wallpaper_mtime: u64, m: ThemeMetadata)
    requires
        metadata_for(config, wallpaper_mtime, m),
        config.appearance.theme.name@ == "seed"@,
        config.appearance.theme.seed_color is Some,
    ensures
        m.mode@ == "seed"@,
        m.seed_color@ == config.appearance.theme.seed_color->0@,
{
}

/// Law: a stored generated theme stays valid only while the settings it
/// was made from stay the same: metadata computed for two configurations
/// (and wallpaper times) is the same only when they agree on the theme
/// name, the configured seed colour (none counting as empty), the
/// wallpaper path (likewise) and, with a wallpaper, its time.
pub proof fn lemma_metadata_tracks_settings(
    c1: GreeterConfig,
    t1: u64,
    m1: ThemeMetadata,
    c2: GreeterConfig,
    t2: u64,
    m2: ThemeMetadata,
)
    requires
        metadata_for(c1, t1, m1),
        metadata_for(c2, t2, m2),
        same_metadata(m1, m2),
    ensures
        c1.appearance.theme.name@ == c2.appearance.theme.name@,
        or_empty(opt_view(c1.appearance.theme.seed_color)) == or_empty(opt_view(c2.appearance.theme.seed_color)),
        or_empty(opt_view(c1.appearance.background.path)) == or_empty(opt_view(c2.appearance.background.path)),
        or_empty(opt_view(c1.appearance.background.path)).len() > 0 ==> t1 == t2,
{
}

fn string_or_empty(o: &Option<String>) -> (r: String)
    ensures
        r@ == or_empty(opt_view(*o)),
{
    match o {
        Some(s) => s.clone(),
        None => String::new(),
    }
}

impl Appearance {
    /// Loads a theme from the built-in list: "default" and "slint" name
    /// the default theme; other names none.
    pub fn load_builtin_theme(name: &str) -> (r: Option<BuiltinTheme>)
        ensures
            r is Some <==> (name@ == "default"@ || name@ == "slint"@),
    {
        if eq_str(name, "default") || eq_str(name, "slint") {
            Some(BuiltinTheme::Default)
        } else {
            None
        }
    }

    /// The theme the configuration asks for: "custom" uses the configured
    /// theme file, "auto" generates one from a wallpaper that exists,
    /// "seed" from the configured seed colour, and any other name is a
    /// built-in theme; a missing path, wallpaper or seed colour selects
    /// the default theme.
    pub fn theme_source(config: &GreeterConfig, wallpaper_exists: bool) -> (r: ThemeSource)
        ensures
            ({
                let name = config.appearance.theme.name@;
                if name == "custom"@ {
                    match opt_view(config.appearance.theme.path) {
                        Some(p) => r matches ThemeSource::Custom(q) && q@ == p,
                        None => r is Default,
                    }
                } else if name == "auto"@ {
                    if config.appearance.background.path is Some && wallpaper_exists {
                        r is Dynamic
                    } else {
                        r is Default
                    }
                } else if name == "seed"@ {
                    if config.appearance.theme.seed_color is Some {
                        r is Dynamic
                    } else {
                        r is Default
                    }
                } else {
                    r matches ThemeSource::Builtin(q) && q@ == name
                }
            }),
    {
        let theme = &config.appearance.theme;
        let name = theme.name.as_str();
        if eq_str(name, "custom") {
            match &theme.path {
                Some(p) => ThemeSource::Custom(p.clone()),
                None => ThemeSource::Default,
            }
        } else if eq_str(name, "auto") {
            if config.appearance.background.path.is_some() && wallpaper_exists {
                ThemeSource::Dynamic
            } else {
                ThemeSource::Default
            }
        } else if eq_str(name, "seed") {
            if theme.seed_color.is_some() {
                ThemeSource::Dynamic
            } else {
                ThemeSource::Default
            }
        } else {
            ThemeSource::Builtin(theme.name.clone())
        }
    }

    /// The metadata of the dynamic theme the configuration asks for, given
    /// the wallpaper's modification time (ignored without a wallpaper).
    pub fn current_metadata(config: &GreeterConfig, wallpaper_mtime: u64) -> (r: ThemeMetadata)
        ensures
            metadata_for(*config, wallpaper_mtime, r),
    {
        let wallpaper_path = string_or_empty(&config.appearance.background.path);
        let mtime = if wallpaper_path.unicode_len() > 0 {
            wallpaper_mtime
        } else {
            0
        };
        ThemeMetadata {
            mode: config.appearance.theme.name.clone(),
            wallpaper_path,
            wallpaper_mtime: mtime,
            seed_color: string_or_empty(&config.appearance.theme.seed_color),
        }
    }

    /// Whether a generated theme stored with metadata `cached` (`None`
    /// when it could not be read) is still the one `current` asks for.
    pub fn cache_is_valid(cached: &Option<ThemeMetadata>, current: &ThemeMetadata) -> (r: bool)
        ensures
            r == match cached {
                Some(c) => same_metadata(*c, *current),
                None => false,
            },
    {
        match cached {
            Some(c) => eq_str(c.mode.as_str(), current.mode.as_str()) && eq_str(
                c.wallpaper_path.as_str(),
                current.wallpaper_path.as_str(),
            ) && c.wallpaper_mtime == current.wallpaper_mtime && eq_str(
                c.seed_color.as_str(),
                current.seed_color.as_str(),
            ),
            None => false,
        }
    }

    /// Where the seed colour comes from: the seed colour for the "seed"
    /// theme, else the wallpaper when there is one.
    pub fn seed_source(meta: &ThemeMetadata) -> (r: SeedSource)
        ensures
            meta.mode@ == "seed"@ ==> (r matches SeedSource::Color(c) && c@ == meta.seed_color@),
            meta.mode@ != "seed"@ && meta.wallpaper_path@.len() > 0 ==> (r matches SeedSource::Wallpaper(p)
                && p@ == meta.wallpaper_path@),
            meta.mode@ != "seed"@ && meta.wallpaper_path@.len() == 0 ==> r is Unavailable,
    {
        if eq_str(meta.mode.as_str(), "seed") {
            SeedSource::Color(meta.seed_color.clone())
        } else if meta.wallpaper_path.unicode_len() > 0 {
            SeedSource::Wallpaper(meta.wallpaper_path.clone())
        } else {
            SeedSource::Unavailable
        }
    }

    /// The theme the greeter uses: the one loaded from the selected source,
    /// or the default theme when the settings select none or loading the
    /// selected one failed.
    pub fn theme_in_use(source: &ThemeSource, loaded: Option<MaterialTheme>, default: MaterialTheme) -> (r: MaterialTheme)
        ensures
            r == match (*source, loaded) {
                (ThemeSource::Default, _) => default,
                (_, Some(t)) => t,
                (_, None) => default,
            },
    {
        match source {
            ThemeSource::Default => default,
            _ => match loaded {
                Some(t) => t,
                None => default,
            },
        }
    }

    /// The colour behind the wallpaper: the configured background colour,
    /// else the background of the theme's light scheme in light mode and
    /// of its dark scheme otherwise.
    pub fn fallback_color(config: &GreeterConfig, theme: &MaterialTheme) -> (r: String)
        ensures
            r@ == match opt_view(config.appearance.background.color) {
                Some(c) => c,
                None => if opt_view(config.appearance.theme.mode) == Some("light"@) {
                    theme.schemes.light.background@
                } else {
                    theme.schemes.dark.background@
                },
            },
    {
        match &config.appearance.background.color {
            Some(c) => c.clone(),
            None => {
                let light = match &config.appearance.theme.mode {
                    Some(m) => eq_str(m.as_str(), "light"),
                    None => false,
                };
                if light {
                    theme.schemes.light.background.clone()
                } else {
                    theme.schemes.dark.background.clone()
                }
            },
        }
    }
}

} // verus!
