use mdgreet::utils::system::{
    is_desktop_file, parse_desktop_file, parse_environments, NormalUser, PasswdEntry, SystemSession, SystemUser,
};
use mdgreet::utils::systems::{get_sessions, get_state_path, get_users, AccountRecord};

fn s(x: &str) -> String {
    x.to_string()
}

fn session(name: &str, exec_cmd: &str) -> SystemSession {
    SystemSession { name: s(name), exec_cmd: s(exec_cmd) }
}

fn names(v: &[SystemSession]) -> Vec<(String, String)> {
    v.iter().map(|x| (x.name.clone(), x.exec_cmd.clone())).collect()
}

#[test]
fn desktop_file_name_and_exec() {
    let content = "[Desktop Entry]\nName=Sway\nComment=An i3-compatible Wayland compositor\nExec=sway\nType=Application\n";
    let r = parse_desktop_file(content).unwrap();
    assert_eq!(r.name, "Sway");
    assert_eq!(r.exec_cmd, "sway");
}

#[test]
fn desktop_file_first_entries_win_and_lines_are_trimmed() {
    let content = "  Name=Hyprland  \r\nName=Other\nExec=Hyprland --flag\nExec=other\n";
    let r = parse_desktop_file(content).unwrap();
    assert_eq!(r.name, "Hyprland");
    assert_eq!(r.exec_cmd, "Hyprland --flag");
}

#[test]
fn desktop_file_removes_every_key_occurrence() {
    let r = parse_desktop_file("Name=A Name=B\nExec=x").unwrap();
    assert_eq!(r.name, "A B");
    assert_eq!(r.exec_cmd, "x");
}

#[test]
fn desktop_file_needs_both_keys() {
    assert!(parse_desktop_file("Name=Only\n").is_none());
    assert!(parse_desktop_file("Exec=only\n").is_none());
    assert!(parse_desktop_file("").is_none());
    assert!(parse_desktop_file("Name[de]=X\nExec=y").is_none());
}

#[test]
fn environments_skip_comments_and_blanks() {
    let r = parse_environments("# comment\n\n  sway  \nbash\n   # also\n");
    assert_eq!(names(&r), vec![(s("sway"), s("sway")), (s("bash"), s("bash"))]);
}

#[test]
fn login_defs_bounds() {
    let n = NormalUser::load(Some(s("# defs\nUID_MIN   500\nUID_MAX\t 2000\n")));
    assert_eq!((n.uid_min, n.uid_max), (500, 2000));
    assert!(n.is_normal_user(500));
    assert!(n.is_normal_user(2000));
    assert!(!n.is_normal_user(499));
    assert!(!n.is_normal_user(2001));
}

#[test]
fn login_defs_defaults_and_unparsable_values() {
    let n = NormalUser::load(None);
    assert_eq!((n.uid_min, n.uid_max), (1000, 60000));
    let n = NormalUser::load(Some(s("UID_MIN 1500\nUID_MIN abc\nUID_MAX\n")));
    assert_eq!((n.uid_min, n.uid_max), (1000, 60000));
    let n = NormalUser::load(Some(s("UID_MIN +1200\nUID_MAX 99999999999\n")));
    assert_eq!((n.uid_min, n.uid_max), (1200, 60000));
    let n = NormalUser::load(Some(s("  UID_MAX 3000 extra\n")));
    assert_eq!((n.uid_min, n.uid_max), (1000, 3000));
}

#[test]
fn desktop_extension() {
    assert!(is_desktop_file("sway.desktop"));
    assert!(is_desktop_file("a.b.desktop"));
    assert!(!is_desktop_file(".desktop"));
    assert!(!is_desktop_file("desktop"));
    assert!(!is_desktop_file("sway.desktop.bak"));
    assert!(!is_desktop_file("sway.Desktop"));
}

#[test]
fn session_directories_from_xdg() {
    assert_eq!(
        SystemSession::session_dirs(None),
        vec![
            s("/usr/local/share/wayland-sessions"),
            s("/usr/local/share/xsessions"),
            s("/usr/share/wayland-sessions"),
            s("/usr/share/xsessions"),
        ]
    );
    assert_eq!(
        SystemSession::session_dirs(Some(s("::/opt/share/:"))),
        vec![s("/opt/share/wayland-sessions"), s("/opt/share/xsessions")]
    );
    assert!(SystemSession::session_dirs(Some(s(""))).is_empty());
}

#[test]
fn sessions_sorted_and_deduplicated() {
    let scanned = vec![session("Sway", "sway"), session("GNOME", "gnome"), session("Sway", "sway --other")];
    let r = SystemSession::all(scanned, Some(s("bash\nGNOME\n")));
    assert_eq!(names(&r), vec![(s("GNOME"), s("gnome")), (s("Sway"), s("sway")), (s("bash"), s("bash"))]);
}

#[test]
fn old_session_listing_matches() {
    let r = get_sessions(vec![session("b", "b"), session("a", "a")], None);
    assert_eq!(names(&r), vec![(s("a"), s("a")), (s("b"), s("b"))]);
}

#[test]
fn passwd_users_filtered_and_sorted() {
    let entries = vec![
        PasswdEntry { name: s("zoe"), uid: 1001, gecos: Some(s("Zoe Z,Room 1,,")) },
        PasswdEntry { name: s("root"), uid: 0, gecos: Some(s("root")) },
        PasswdEntry { name: s("al"), uid: 1000, gecos: None },
        PasswdEntry { name: s("bo"), uid: 1002, gecos: Some(s("")) },
        PasswdEntry { name: s("nobody"), uid: 65534, gecos: None },
    ];
    let r = SystemUser::from_passwd(entries, &NormalUser::default());
    let got: Vec<(String, String)> = r.iter().map(|u| (u.user_name.clone(), u.real_name.clone())).collect();
    assert_eq!(got, vec![(s("al"), s("al")), (s("bo"), s("bo")), (s("zoe"), s("Zoe Z"))]);
}

#[test]
fn gecos_real_name() {
    assert_eq!(SystemUser::real_name_from_gecos(&s("u"), &Some(s(",x"))), "");
    assert_eq!(SystemUser::real_name_from_gecos(&s("u"), &Some(s("Full"))), "Full");
}

#[test]
fn dbus_users_without_login_dropped_and_sorted() {
    let found = vec![
        SystemUser { user_name: s("b"), real_name: s("B") },
        SystemUser { user_name: s(""), real_name: s("ghost") },
        SystemUser { user_name: s("a"), real_name: s("A") },
    ];
    let r = SystemUser::from_dbus(found);
    let got: Vec<String> = r.iter().map(|u| u.user_name.clone()).collect();
    assert_eq!(got, vec![s("a"), s("b")]);
}

#[test]
fn users_prefer_dbus_when_not_empty() {
    let d = vec![SystemUser { user_name: s("d"), real_name: s("D") }];
    let p = vec![SystemUser { user_name: s("p"), real_name: s("P") }];
    assert_eq!(SystemUser::all(Some(d), vec![])[0].user_name, "d");
    assert_eq!(SystemUser::all(Some(vec![]), p)[0].user_name, "p");
    let p = vec![SystemUser { user_name: s("p"), real_name: s("P") }];
    assert_eq!(SystemUser::all(None, p)[0].user_name, "p");
}

#[test]
fn account_service_users_filtered() {
    let rec = |uid: u64, name: &str, icon: Option<&str>| AccountRecord {
        uid,
        user_name: s(name),
        real_name: s(name),
        home_directory: format!("/home/{}", name),
        icon_file: icon.map(s),
    };
    let r = get_users(vec![rec(1001, "m", Some("")), rec(999, "sys", None), rec(1000, "k", Some("/i.png")), rec(65534, "n", None)]);
    assert_eq!(r.len(), 2);
    assert_eq!(r[0].login, "k");
    assert_eq!(r[0].avatar_path.as_deref(), Some("/i.png"));
    assert_eq!(r[1].login, "m");
    assert_eq!(r[1].avatar_path, None);
}

#[test]
fn state_path_by_uid() {
    assert_eq!(get_state_path(0), "/var/cache/mdgreet/state.json");
    assert_eq!(get_state_path(1000), ".cache/state.json");
}
