use vstd::prelude::*;
use crate::utils::text::{concat, path_join};
use vstd::string::*;

verus! {

/// The name of the greeter used for configuration and cache paths.
pub const GREETER_NAME: &'static str = "mdgreet";

/// Path to the system-wide login definitions file.
pub const LOGIN_DEFS: &'static str = "/etc/login.defs";

/// Path to the greetd environments configuration file.
pub const GREETD_ENVIRONMENTS: &'static str = "/etc/greetd/environments";

/// The standard system path for localized messages (translations).
pub const SYSTEM_LOCALE_DIR: &'static str = "/usr/share/locale";

/// Returns the default path to the configuration file.
pub fn default_config_path() -> (r: String)
    ensures
        r@ == "/etc/greetd/mdgreet.toml"@,
{
    let file = concat(GREETER_NAME, ".toml");
    let r = path_join("/etc/greetd", file.as_str());
    proof {
        reveal_strlit("mdgreet");
        reveal_strlit(".toml");
        reveal_strlit("/etc/greetd");
        reveal_strlit("/etc/greetd/mdgreet.toml");
        assert(r@ =~= "/etc/greetd/mdgreet.toml"@);
    }
    r
}

/// Returns the default directory for cache files.
pub fn default_cache_dir() -> (r: String)
    ensures
        r@ == "/var/cache/mdgreet"@,
{
    let r = concat("/var/cache/", GREETER_NAME);
    proof {
        reveal_strlit("mdgreet");
        reveal_strlit("/var/cache/");
        reveal_strlit("/var/cache/mdgreet");
        assert(r@ =~= "/var/cache/mdgreet"@);
    }
    r
}

/// Returns the default path for the log file.
pub fn default_log_path() -> (r: String)
    ensures
        r@ == "/var/log/mdgreet/mdgreet.log"@,
{
    let dir = concat("/var/log/", GREETER_NAME);
    let mut r = concat(dir.as_str(), "/");
    r.append(GREETER_NAME);
    r.append(".log");
    proof {
        reveal_strlit("mdgreet");
        reveal_strlit("/var/log/");
        reveal_strlit("/");
        reveal_strlit(".log");
        reveal_strlit("/var/log/mdgreet/mdgreet.log");
        assert(r@ =~= "/var/log/mdgreet/mdgreet.log"@);
    }
    r
}

} // verus!
