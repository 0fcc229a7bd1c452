use mdgreet::app::auth::UserData;
use mdgreet::app::clock::Clock;
use mdgreet::app::login::Login;
use mdgreet::app::power::Power;
use mdgreet::app::session::{Compositor, Session};
use mdgreet::app::state::State;
use mdgreet::config::{LoggingConfig, PowerConfig};
use mdgreet::utils::cache::Cache;
use mdgreet::utils::i18n::locales_dir;
use mdgreet::utils::logging;
use mdgreet::utils::system::SystemSession;

fn s(x: &str) -> String {
    x.to_string()
}

fn comp(name: &str, exec_cmd: &str) -> Compositor {
    Compositor { name: s(name), exec_cmd: s(exec_cmd) }
}

fn user(name: &str) -> UserData {
    UserData { user_name: s(name), real_name: s(""), password: s("") }
}

#[test]
fn session_models_with_sessions() {
    let (comps, menu) = Session::prepare_ui_models(&vec![comp("Sway", "sway")], s("none found"), s("None"));
    assert_eq!(comps.len(), 1);
    assert_eq!(comps[0].exec_cmd, "sway");
    assert_eq!(menu[0].text, "Sway");
    assert!(menu[0].enabled);
}

#[test]
fn session_models_without_sessions() {
    let (comps, menu) = Session::prepare_ui_models(&vec![], s("No sessions found"), s("None"));
    assert_eq!((comps[0].name.as_str(), comps[0].exec_cmd.as_str()), ("None", ""));
    assert_eq!(menu[0].text, "No sessions found");
    assert!(!menu[0].enabled);
    let (comps, menu) = Session::init(vec![]);
    assert_eq!(comps.len(), 1);
    assert_eq!(comps[0].exec_cmd, "");
    assert!(!menu[0].enabled);
}

#[test]
fn session_init_lists_sessions() {
    let (comps, _) = Session::init(vec![SystemSession { name: s("GNOME"), exec_cmd: s("gnome-session") }]);
    assert_eq!((comps[0].name.as_str(), comps[0].exec_cmd.as_str()), ("GNOME", "gnome-session"));
}

#[test]
fn power_commands_default_to_systemd() {
    let mut c = PowerConfig { shutdown: None, reboot: None, sleep: None, hibernate: None };
    let p = Power::init(&c);
    assert_eq!(p.shutdown, "systemctl poweroff");
    assert_eq!(p.reboot, "systemctl reboot");
    assert_eq!(p.sleep, "systemctl suspend");
    assert_eq!(p.hibernate, "systemctl hibernate");
    c.sleep = Some(s("zzz"));
    assert_eq!(Power::init(&c).sleep, "zzz");
}

#[test]
fn power_command_words() {
    let (prog, args) = Power::parse_command("loginctl 'power off' now").unwrap();
    assert_eq!(prog, "loginctl");
    assert_eq!(args, vec![s("power off"), s("now")]);
    assert!(Power::parse_command("").is_none());
    assert!(Power::parse_command("   ").is_none());
    assert!(Power::parse_command("echo 'unclosed").is_none());
}

#[test]
fn compositor_lookup_by_name() {
    let cs = vec![comp("A", "a"), comp("B", "b"), comp("B", "b2")];
    assert_eq!(State::set_compositor_by_name(&cs, "B"), Some(1));
    assert_eq!(State::set_compositor_by_name(&cs, "C"), None);
}

#[test]
fn state_restores_last_user_and_session() {
    let mut cache = Cache::default();
    Login::record_login(&mut cache, "bob", "B");
    let users = vec![user("alice"), user("bob")];
    let cs = vec![comp("A", "a"), comp("B", "b")];
    assert_eq!(State::init(&mut cache, &users, &cs), (Some(1), Some(1)));
    assert_eq!(State::on_user_selected(&mut cache, &users, &cs, 0), None);
    assert_eq!(State::on_user_selected(&mut cache, &users, &cs, 1), Some(1));
    assert_eq!(State::on_user_selected(&mut cache, &users, &cs, -1), None);
    assert_eq!(State::on_user_selected(&mut cache, &users, &cs, 7), None);
}

#[test]
fn state_without_remembered_user() {
    let mut cache = Cache::default();
    let users = vec![user("alice")];
    assert_eq!(State::init(&mut cache, &users, &vec![]), (None, None));
    cache.set_last_user(s("carol"));
    assert_eq!(State::init(&mut cache, &users, &vec![]), (None, None));
}

#[test]
fn login_session_selection() {
    let cs = vec![comp("Sway", "sway"), comp("None", "")];
    assert_eq!(Login::selected_compositor(&cs, 0), Some((s("sway"), s("Sway"))));
    assert_eq!(Login::selected_compositor(&cs, 1), None);
    assert_eq!(Login::selected_compositor(&cs, -1), None);
    assert_eq!(Login::selected_compositor(&cs, 2), None);
    assert!(Login::compositor_for_login(&cs, 1).is_err());
    assert_eq!(Login::compositor_for_login(&cs, 0), Ok((s("sway"), s("Sway"))));
}

#[test]
fn login_session_command() {
    assert_eq!(Login::session_command("sway --unsupported-gpu"), vec![s("sway"), s("--unsupported-gpu")]);
    assert_eq!(Login::session_command("env A=1 'my wm'"), vec![s("env"), s("A=1"), s("my wm")]);
    assert_eq!(Login::session_command("bad 'quote"), vec![s("bad 'quote")]);
}

#[test]
fn login_is_recorded() {
    let mut cache = Cache::default();
    Login::record_login(&mut cache, "alice", "Sway");
    assert_eq!(cache.last_user.as_deref(), Some("alice"));
    assert_eq!(cache.get_last_session("alice"), Some(&s("Sway")));
}

#[test]
fn clock_parts() {
    assert_eq!(Clock::weekday_msgid(0), "Monday");
    assert_eq!(Clock::weekday_msgid(6), "Sunday");
    assert_eq!(Clock::month_msgid(5), Some("May"));
    assert_eq!(Clock::month_msgid(13), None);
    assert_eq!(Clock::format_date("{weekday}, {month} {day}", "Friday", "May", "8"), "Friday, May 8");
    assert_eq!(Clock::format_date("{weekday}, {day} {month}", "Пятница", "мая", "8"), "Пятница, 8 мая");
}

#[test]
fn clock_texts() {
    let t = Clock::texts(7, 5, 4, 5, 8);
    assert_eq!(t.hours, "07");
    assert_eq!(t.minutes, "05");
    assert_eq!(t.date, "Friday, May 8");
}

#[test]
fn locales_and_logging_settings() {
    assert_eq!(locales_dir(Some(s("/nix/l")), "/dev/l", true), "/nix/l");
    assert_eq!(locales_dir(None, "/dev/l", true), "/dev/l");
    assert_eq!(locales_dir(None, "/dev/l", false), "/usr/share/locale");
    let (level, path) = logging::settings(&LoggingConfig::default());
    assert_eq!((level.as_str(), path.as_str()), ("info", "/var/log/mdgreet/mdgreet.log"));
    let (level, path) = logging::settings(&LoggingConfig { level: Some(s("debug")), path: Some(s("/tmp/l")) });
    assert_eq!((level.as_str(), path.as_str()), ("debug", "/tmp/l"));
}

#[test]
fn clock_texts_from_untranslated_messages() {
    let weekday = Clock::weekday_msgid(4);
    let month = Clock::month_msgid(5).unwrap();
    let format = Clock::date_format_msgid();
    assert_eq!((weekday, month, format), ("Friday", "May", "{weekday}, {month} {day}"));
    let t = Clock::texts_from(14, 5, 8, weekday, month, format);
    assert_eq!((t.hours.as_str(), t.minutes.as_str(), t.date.as_str()), ("14", "05", "Friday, May 8"));
}

#[test]
fn clock_texts_from_translated_messages() {
    let t = Clock::texts_from(0, 0, 31, "Пятница", "мая", "{weekday}, {day} {month}");
    assert_eq!((t.hours.as_str(), t.minutes.as_str(), t.date.as_str()), ("00", "00", "Пятница, 31 мая"));
}

#[test]
fn initials_split_on_unicode_whitespace() {
    assert_eq!(mdgreet::app::auth::Auth::word_initials("ana\u{00A0}bo\u{3000}cy"), "abc");
    assert_eq!(mdgreet::app::auth::Auth::word_initials("\tana\n bo "), "ab");
}

#[test]
fn initials_whitespace_agrees_with_std() {
    for u in 0u32..0x3100 {
        if let Some(c) = char::from_u32(u) {
            let name = format!("a{}b", c);
            let expected = if c.is_whitespace() { "ab" } else { "a" };
            assert_eq!(mdgreet::app::auth::Auth::word_initials(&name), expected, "code point {:#x}", u);
        }
    }
}

#[test]
fn clock_texts_with_a_lookup() {
    let t = Clock::texts_with(14, 5, 4, 5, 8, |s: &'static str| s.to_string());
    assert_eq!((t.hours.as_str(), t.minutes.as_str(), t.date.as_str()), ("14", "05", "Friday, May 8"));
    let t = Clock::texts_with(9, 30, 0, 13, 1, |s: &'static str| format!("<{}>", s));
    assert_eq!(t.date, "<{weekday}, {month} {day}>".replace("{weekday}", "<Monday>").replace("{month}", "").replace("{day}", "1"));
}

#[test]
fn session_placeholders_with_a_lookup() {
    let (comps, menu) = Session::init_with(Vec::new(), |s: &'static str| format!("[{}]", s));
    assert_eq!(comps.len(), 1);
    assert_eq!((comps[0].name.as_str(), comps[0].exec_cmd.as_str()), ("[None]", ""));
    assert_eq!(menu.len(), 1);
    assert_eq!(menu[0].text, "[No sessions found]");
    assert!(!menu[0].enabled);
    let (comps, menu) = Session::init_with(vec![SystemSession { name: s("Sway"), exec_cmd: s("sway") }], |x: &'static str| x.to_string());
    assert_eq!((comps[0].name.as_str(), menu[0].text.as_str(), menu[0].enabled), ("Sway", "Sway", true));
}

#[test]
fn login_error_with_a_lookup() {
    let comps = vec![comp("Sway", "sway"), comp("Empty", "")];
    let lookup = |x: &'static str| format!("!{}", x);
    assert_eq!(Login::compositor_for_login_with(&comps, 0, lookup), Ok((s("sway"), s("Sway"))));
    assert_eq!(Login::compositor_for_login_with(&comps, 1, lookup), Err(s("!No compositor selected")));
    assert_eq!(Login::compositor_for_login_with(&comps, 5, lookup), Err(s("!No compositor selected")));
}
