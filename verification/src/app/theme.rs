use vstd::prelude::*;
use vstd::string::*;
use crate::config::opt_view;
use crate::utils::text::{concat, eq_str};

verus! {

/// The themes built into the older theme loader.
pub enum BuiltinTheme {
    Slint,
    Purple,
    Red,
    Green,
}

/// Which theme the older theme loader uses.
pub enum ThemeChoice {
    /// The custom theme file at this path (purple when it cannot be loaded).
    Custom(String),
    /// This built-in theme.
    Builtin(BuiltinTheme),
}

/// The built-in theme of a name, if any.
pub open spec fn builtin_spec(name: Seq<char>) -> Option<BuiltinTheme> {
    if name == "slint"@ {
        Some(BuiltinTheme::Slint)
    } else if name == "purple"@ {
        Some(BuiltinTheme::Purple)
    } else if name == "red"@ {
        Some(BuiltinTheme::Red)
    } else if name == "green"@ {
        Some(BuiltinTheme::Green)
    } else {
        None
    }
}

/// The theme loader of the first theme configuration.
pub struct Theme;

impl Theme {
    /// The built-in theme named `name`: "slint", "purple", "red" or
    /// "green".
    pub fn load_builtin_theme(name: &str) -> (r: Option<BuiltinTheme>)
        ensures
            r == builtin_spec(name@),
    {
        if eq_str(name, "slint") {
            Some(BuiltinTheme::Slint)
        } else if eq_str(name, "purple") {
            Some(BuiltinTheme::Purple)
        } else if eq_str(name, "red") {
            Some(BuiltinTheme::Red)
        } else if eq_str(name, "green") {
            Some(BuiltinTheme::Green)
        } else {
            None
        }
    }

    /// The theme to use for the configured name: "custom" reads
    /// `material-theme.json` in the configuration directory
    /// (`MDGREET_CONFIG_DIR`, else the current directory); any other name
    /// is a built-in theme, purple when there is none of that name.
    pub fn init(theme_name: &str, config_dir: Option<String>) -> (r: ThemeChoice)
        ensures
            theme_name@ == "custom"@ ==> (r matches ThemeChoice::Custom(p) && p@ == match opt_view(config_dir) {
                Some(d) => d,
                None => "."@,
            } + "/material-theme.json"@),
            theme_name@ != "custom"@ ==> r == ThemeChoice::Builtin(
                match builtin_spec(theme_name@) {
                    Some(t) => t,
                    None => BuiltinTheme::Purple,
                },
            ),
    {
        if eq_str(theme_name, "custom") {
            let dir = match config_dir {
                Some(d) => d,
                None => String::from_str("."),
            };
            ThemeChoice::Custom(concat(dir.as_str(), "/material-theme.json"))
        } else {
            match Theme::load_builtin_theme(theme_name) {
                Some(t) => ThemeChoice::Builtin(t),
                None => ThemeChoice::Builtin(BuiltinTheme::Purple),
            }
        }
    }
}

} // verus!
