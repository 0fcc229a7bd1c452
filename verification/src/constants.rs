use vstd::prelude::*;

verus! {

/// The name for this greeter
pub const GREETER_NAME: &'static str = "mdgreet";

/// Default path to the config file
pub const CONFIG_PATH: &'static str = "/etc/greetd/mdgreet.toml";

/// Default theme name
pub const DEFAULT_THEME: &'static str = "purple";

/// Default color mode
pub const DEFAULT_MODE: &'static str = "dark";

/// Cache directory for processed images
pub const CACHE_DIR: &'static str = "/var/cache/mdgreet";

/// Default background image path
pub const DEFAULT_BACKGROUND: &'static str = "ui/images/background.png";

/// Default power commands
pub const DEFAULT_CMD_SHUTDOWN: &'static str = "systemctl poweroff";

pub const DEFAULT_CMD_REBOOT: &'static str = "systemctl reboot";

pub const DEFAULT_CMD_SLEEP: &'static str = "systemctl suspend";

pub const DEFAULT_CMD_HIBERNATE: &'static str = "systemctl hibernate";

} // verus!
