use mdgreet::config::GreeterConfig;
use mdgreet::utils::cache::{get_cache_dir, Cache, LruWrapper, CACHE_LIMIT};

fn s(x: &str) -> String {
    x.to_string()
}

fn pairs(v: &[(&str, &str)]) -> Vec<(String, String)> {
    v.iter().map(|(a, b)| (s(a), s(b))).collect()
}

#[test]
fn lru_put_then_get_returns_value() {
    let mut lru = LruWrapper::new(3);
    lru.put(s("alice"), s("sway"));
    assert_eq!(lru.get(&s("alice")), Some(&s("sway")));
    assert_eq!(lru.get(&s("bob")), None);
    assert_eq!(lru.len(), 1);
}

#[test]
fn lru_put_existing_key_updates_and_moves_to_front() {
    let mut lru = LruWrapper::new(3);
    lru.put(s("a"), s("1"));
    lru.put(s("b"), s("2"));
    lru.put(s("a"), s("3"));
    assert_eq!(lru.len(), 2);
    assert_eq!(lru.entries(), pairs(&[("a", "3"), ("b", "2")]));
}

#[test]
fn lru_full_cache_evicts_least_recently_used() {
    let mut lru = LruWrapper::new(2);
    lru.put(s("a"), s("1"));
    lru.put(s("b"), s("2"));
    // reading `a` makes `b` the least recently used entry
    assert_eq!(lru.get(&s("a")), Some(&s("1")));
    lru.put(s("c"), s("3"));
    assert_eq!(lru.len(), 2);
    assert_eq!(lru.get(&s("b")), None);
    assert_eq!(lru.entries(), pairs(&[("c", "3"), ("a", "1")]));
}

#[test]
fn lru_entries_are_most_recent_first() {
    let mut lru = LruWrapper::new(5);
    lru.put(s("x"), s("1"));
    lru.put(s("y"), s("2"));
    lru.put(s("z"), s("3"));
    assert_eq!(lru.entries(), pairs(&[("z", "3"), ("y", "2"), ("x", "1")]));
}

#[test]
fn lru_read_back_reverses_recency_and_keeps_sessions() {
    let mut lru = LruWrapper::new(CACHE_LIMIT);
    lru.put(s("x"), s("1"));
    lru.put(s("y"), s("2"));
    lru.put(s("z"), s("3"));
    let written = lru.entries();
    let mut back = LruWrapper::from_entries(written.clone());
    let mut reversed = written.clone();
    reversed.reverse();
    assert_eq!(back.entries(), reversed);
    assert_eq!(back.get(&s("y")), Some(&s("2")));
    assert_eq!(back.get(&s("x")), Some(&s("1")));
    assert_eq!(back.get(&s("z")), Some(&s("3")));
}

#[test]
fn lru_from_entries_keeps_at_most_the_limit() {
    let items: Vec<(String, String)> = (0..150).map(|i| (format!("u{}", i), format!("s{}", i))).collect();
    let mut lru = LruWrapper::from_entries(items);
    assert_eq!(lru.len(), CACHE_LIMIT);
    assert_eq!(lru.get(&s("u49")), None);
    assert_eq!(lru.get(&s("u50")), Some(&s("s50")));
    assert_eq!(lru.get(&s("u149")), Some(&s("s149")));
}

#[test]
fn lru_from_entries_later_duplicate_wins() {
    let mut lru = LruWrapper::from_entries(pairs(&[("a", "1"), ("a", "2")]));
    assert_eq!(lru.len(), 1);
    assert_eq!(lru.get(&s("a")), Some(&s("2")));
}

#[test]
fn cache_default_is_empty() {
    let c = Cache::default();
    assert_eq!(c.last_user, None);
    assert_eq!(c.user_to_last_sess.len(), 0);
    assert_eq!(c.path(), "");
}

#[test]
fn cache_remembers_last_session_per_user() {
    let mut c = Cache::default();
    c.set_last_user(s("alice"));
    c.set_last_session(s("alice"), s("Sway"));
    c.set_last_session(s("bob"), s("Hyprland"));
    assert_eq!(c.last_user, Some(s("alice")));
    assert_eq!(c.get_last_session("alice"), Some(&s("Sway")));
    assert_eq!(c.get_last_session("bob"), Some(&s("Hyprland")));
    assert_eq!(c.get_last_session("carol"), None);
}

#[test]
fn cache_get_last_session_makes_entry_most_recent() {
    let mut c = Cache::default();
    c.set_last_session(s("alice"), s("Sway"));
    c.set_last_session(s("bob"), s("Niri"));
    assert_eq!(c.get_last_session("alice"), Some(&s("Sway")));
    assert_eq!(c.user_to_last_sess.entries(), pairs(&[("alice", "Sway"), ("bob", "Niri")]));
}

#[test]
fn cache_dir_defaults_to_var_cache() {
    let mut config = GreeterConfig::default();
    assert_eq!(get_cache_dir(&config), "/var/cache/mdgreet");
    config.cache.path = Some(s("/tmp/mdg"));
    assert_eq!(get_cache_dir(&config), "/tmp/mdg");
}

#[test]
fn cache_load_without_stored_state() {
    let config = GreeterConfig::default();
    let c = Cache::load(&config, None);
    assert_eq!(c.path(), "/var/cache/mdgreet/state.toml");
    assert_eq!(c.last_user, None);
    assert_eq!(c.user_to_last_sess.len(), 0);
}

#[test]
fn cache_load_keeps_stored_state() {
    let mut config = GreeterConfig::default();
    config.cache.path = Some(s("/tmp/cache/"));
    let stored = Cache::restored(Some(s("bob")), LruWrapper::from_entries(pairs(&[("bob", "Sway")])));
    let mut c = Cache::load(&config, Some(stored));
    assert_eq!(c.path(), "/tmp/cache/state.toml");
    assert_eq!(c.last_user, Some(s("bob")));
    assert_eq!(c.get_last_session("bob"), Some(&s("Sway")));
}
