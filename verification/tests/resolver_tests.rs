use yabridgectl::order::str_eq;
use yabridgectl::order::str_lt;
use yabridgectl::paths::join_path;
use yabridgectl::Config;

fn fallback_config() -> Config {
    Config::default()
}

fn override_config(home: &str) -> Config {
    let mut config = Config::default();
    config.yabridge_home = Some(String::from(home));
    config
}

#[test]
fn candidates_with_override_name_only_the_override() {
    let config = override_config("/custom");
    let candidates = config.search_candidates("/home/user/.local/share/yabridge");
    assert_eq!(candidates, vec!["/custom/libyabridge.so"]);
}

#[test]
fn candidates_without_override_are_system_then_user() {
    let config = fallback_config();
    let candidates = config.search_candidates("/home/user/.local/share/yabridge");
    assert_eq!(
        candidates,
        vec![
            "/usr/lib/libyabridge.so",
            "/home/user/.local/share/yabridge/libyabridge.so",
        ]
    );
}

#[test]
fn system_location_takes_precedence_over_user_location() {
    let config = fallback_config();
    let found = vec![true, true];
    let result = config.libyabridge("/home/user/.local/share/yabridge", &found);
    assert_eq!(result.unwrap(), "/usr/lib/libyabridge.so");
}

#[test]
fn user_location_is_used_when_system_location_is_empty() {
    let config = fallback_config();
    let found = vec![false, true];
    let result = config.libyabridge("/home/user/.local/share/yabridge", &found);
    assert_eq!(
        result.unwrap(),
        "/home/user/.local/share/yabridge/libyabridge.so"
    );
}

#[test]
fn override_wins_even_when_fallbacks_would_also_hit() {
    let config = override_config("/custom");
    let found = vec![true];
    let result = config.libyabridge("/home/user/.local/share/yabridge", &found);
    assert_eq!(result.unwrap(), "/custom/libyabridge.so");
}

#[test]
fn missing_override_names_the_directory_searched() {
    let config = override_config("/custom");
    let found = vec![false];
    let err = config
        .libyabridge("/home/user/.local/share/yabridge", &found)
        .unwrap_err();
    assert_eq!(err, "Could not find libyabridge.so in '/custom'.");
}

#[test]
fn missing_everywhere_names_both_locations_searched() {
    let config = fallback_config();
    let found = vec![false, false];
    let err = config
        .libyabridge("/home/user/.local/share/yabridge", &found)
        .unwrap_err();
    assert_eq!(
        err,
        "Could not find libyabridge.so in either '/usr/lib' or \
         '/home/user/.local/share/yabridge'. You can tell yabridgectl where to search \
         for it using 'yabridgectl set --path=<path>'."
    );
    assert!(err.contains("/usr/lib"));
    assert!(err.contains("/home/user/.local/share/yabridge"));
}

#[test]
fn join_path_inserts_one_separator() {
    assert_eq!(join_path("/usr/lib", "libyabridge.so"), "/usr/lib/libyabridge.so");
    assert_eq!(join_path("", "x"), "/x");
}

#[test]
fn lexicographic_order_helpers() {
    assert!(str_lt("/a", "/b"));
    assert!(!str_lt("/b", "/a"));
    assert!(str_lt("/a", "/a/b"));
    assert!(!str_lt("/a", "/a"));
    assert!(str_eq("/a", "/a"));
    assert!(!str_eq("/a", "/b"));
}
