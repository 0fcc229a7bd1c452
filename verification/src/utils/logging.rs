use vstd::string::*;
use vstd::prelude::*;
use crate::config::{opt_view, LoggingConfig};
use crate::utils::paths::default_log_path;

verus! {

/// The logging settings in effect: the configured level, else "info",
/// and the configured log file, else the default one.
pub fn settings(config: &LoggingConfig) -> (r: (String, String))
    ensures
        r.0@ == match opt_view(config.level) {
            Some(l) => l,
            None => "info"@,
        },
        r.1@ == match opt_view(config.path) {
            Some(p) => p,
            None => "/var/log/mdgreet/mdgreet.log"@,
        },
{
    let level = match &config.level {
        Some(l) => l.clone(),
        None => String::from_str("info"),
    };
    let path = match &config.path {
        Some(p) => p.clone(),
        None => default_log_path(),
    };
    (level, path)
}

} // verus!
