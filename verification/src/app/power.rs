use vstd::prelude::*;
use vstd::string::*;
use crate::config::{opt_view, PowerConfig};
use crate::utils::shell::{shell_words, shlex_split, strings_view};

verus! {

/// The commands behind the four power actions.
pub struct PowerCommands {
    pub shutdown: String,
    pub reboot: String,
    pub sleep: String,
    pub hibernate: String,
}

/// An optional command, or a default one.
pub open spec fn command_or(o: Option<Seq<char>>, d: Seq<char>) -> Seq<char> {
    match o {
        Some(c) => c,
        None => d,
    }
}

fn command_or_default(o: &Option<String>, d: &str) -> (r: String)
    ensures
        r@ == command_or(opt_view(*o), d@),
{
    match o {
        Some(c) => c.clone(),
        None => String::from_str(d),
    }
}

/// Executes system power actions.
pub struct Power;

impl Power {
    /// The command of each power action: the configured one, else the
    /// systemd one.
    pub fn init(config: &PowerConfig) -> (r: PowerCommands)
        ensures
            r.shutdown@ == command_or(opt_view(config.shutdown), "systemctl poweroff"@),
            r.reboot@ == command_or(opt_view(config.reboot), "systemctl reboot"@),
            r.sleep@ == command_or(opt_view(config.sleep), "systemctl suspend"@),
            r.hibernate@ == command_or(opt_view(config.hibernate), "systemctl hibernate"@),
    {
        PowerCommands {
            shutdown: command_or_default(&config.shutdown, "systemctl poweroff"),
            reboot: command_or_default(&config.reboot, "systemctl reboot"),
            sleep: command_or_default(&config.sleep, "systemctl suspend"),
            hibernate: command_or_default(&config.hibernate, "systemctl hibernate"),
        }
    }

    /// The program and arguments a power command runs: its words under
    /// shell quoting rules; `None` (an invalid command) when the quoting
    /// is malformed or there are no words.
    pub fn parse_command(cmd_string: &str) -> (r: Option<(String, Vec<String>)>)
        ensures
            match shell_words(cmd_string@) {
                Some(ws) => if ws.len() > 0 {
                    r matches Some((p, args)) && p@ == ws[0] && strings_view(args@) == ws.drop_first()
                } else {
                    r is None
                },
                None => r is None,
            },
    {
        match shlex_split(cmd_string) {
            Some(parts) => {
                if parts.len() == 0 {
                    return None;
                }
                let ghost all = parts@;
                let mut parts = parts;
                let program = parts.remove(0);
                proof {
                    assert(strings_view(parts@) =~= strings_view(all).drop_first());
                }
                Some((program, parts))
            },
            None => None,
        }
    }
}

} // verus!
