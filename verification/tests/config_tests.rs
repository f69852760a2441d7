use yabridgectl::config::format_error_msg;
use yabridgectl::config::parse_error_msg;
use yabridgectl::config::place_error_msg;
use yabridgectl::config::read_error_msg;
use yabridgectl::config::write_error_msg;
use yabridgectl::Config;
use yabridgectl::DirSet;
use yabridgectl::InstallationMethod;
use yabridgectl::RawConfig;

fn dirs_of(config: &Config) -> Vec<String> {
    config.plugin_dirs.to_vec()
}

#[test]
fn default_config_is_copy_without_home_or_dirs() {
    let config = Config::default();
    assert_eq!(config.method, InstallationMethod::Copy);
    assert_eq!(config.yabridge_home, None);
    assert_eq!(dirs_of(&config).len(), 0);
}

#[test]
fn defaulting_is_idempotent() {
    let first = Config::default();
    let second = Config::default();
    assert_eq!(first.method, second.method);
    assert_eq!(first.yabridge_home, second.yabridge_home);
    assert_eq!(dirs_of(&first), dirs_of(&second));
}

#[test]
fn encode_decode_round_trip() {
    let mut config = Config::default();
    config.method = InstallationMethod::Symlink;
    config.yabridge_home = Some(String::from("/opt/yabridge"));
    config.plugin_dirs.insert("/home/user/vst");
    config.plugin_dirs.insert("/srv/plugins");
    config.plugin_dirs.insert("/home/user/other");

    let raw = config.encode();
    let back = Config::decode(&raw).unwrap();
    assert_eq!(back.method, config.method);
    assert_eq!(back.yabridge_home, config.yabridge_home);
    assert_eq!(dirs_of(&back), dirs_of(&config));
}

#[test]
fn round_trip_of_default() {
    let config = Config::default();
    let raw = config.encode();
    let back = Config::decode(&raw).unwrap();
    assert_eq!(back.method, InstallationMethod::Copy);
    assert_eq!(back.yabridge_home, None);
    assert_eq!(dirs_of(&back).len(), 0);
}

#[test]
fn encoding_writes_dirs_sorted_regardless_of_insertion_order() {
    let mut config = Config::default();
    config.plugin_dirs.insert("/b");
    config.plugin_dirs.insert("/a");
    config.plugin_dirs.insert("/c");
    let raw = config.encode();
    assert_eq!(raw.plugin_dirs, vec!["/a", "/b", "/c"]);

    let mut other = Config::default();
    other.plugin_dirs.insert("/c");
    other.plugin_dirs.insert("/b");
    other.plugin_dirs.insert("/a");
    assert_eq!(other.encode().plugin_dirs, vec!["/a", "/b", "/c"]);
}

#[test]
fn encoding_method_uses_canonical_names() {
    let mut config = Config::default();
    assert_eq!(config.encode().method, "copy");
    config.method = InstallationMethod::Symlink;
    assert_eq!(config.encode().method, "symlink");
}

#[test]
fn unknown_method_string_is_a_hard_error() {
    let raw = RawConfig {
        method: String::from("move"),
        yabridge_home: None,
        plugin_dirs: Vec::new(),
    };
    let result = Config::decode(&raw);
    let err = result.unwrap_err();
    assert_eq!(
        err,
        "unknown installation method 'move', expected 'copy' or 'symlink'"
    );
}

#[test]
fn decode_accepts_both_methods_and_dedups_dirs() {
    let raw = RawConfig {
        method: String::from("symlink"),
        yabridge_home: Some(String::from("/opt/yabridge")),
        plugin_dirs: vec![
            String::from("/b"),
            String::from("/a"),
            String::from("/b"),
            String::from("/a"),
        ],
    };
    let config = Config::decode(&raw).unwrap();
    assert_eq!(config.method, InstallationMethod::Symlink);
    assert_eq!(config.yabridge_home, Some(String::from("/opt/yabridge")));
    assert_eq!(dirs_of(&config), vec!["/a", "/b"]);
}

#[test]
fn method_text_forms() {
    assert_eq!(InstallationMethod::Copy.as_config_str(), "copy");
    assert_eq!(InstallationMethod::Symlink.as_config_str(), "symlink");
    assert_eq!(
        InstallationMethod::from_config_str("copy"),
        Some(InstallationMethod::Copy)
    );
    assert_eq!(
        InstallationMethod::from_config_str("symlink"),
        Some(InstallationMethod::Symlink)
    );
    assert_eq!(InstallationMethod::from_config_str("Copy"), None);
    assert_eq!(InstallationMethod::from_config_str(""), None);
}

#[test]
fn dirset_keeps_set_semantics() {
    let mut dirs = DirSet::new();
    dirs.insert("/b");
    dirs.insert("/a");
    dirs.insert("/b");
    assert_eq!(dirs.len(), 2);
    assert!(dirs.contains("/a"));
    assert!(dirs.contains("/b"));
    assert!(!dirs.contains("/c"));
    dirs.remove("/a");
    assert_eq!(dirs.len(), 1);
    assert!(!dirs.contains("/a"));
    dirs.remove("/missing");
    assert_eq!(dirs.len(), 1);
}

#[test]
fn dirset_from_vec_sorts_and_dedups() {
    let input = vec![
        String::from("/z"),
        String::from("/m"),
        String::from("/a"),
        String::from("/m"),
    ];
    let dirs = DirSet::from_vec(&input);
    assert_eq!(dirs.to_vec(), vec!["/a", "/m", "/z"]);
    assert_eq!(dirs.get(0).as_str(), "/a");
}

#[test]
fn error_message_texts() {
    assert_eq!(parse_error_msg("boom"), "Could not parse TOML: boom");
    assert_eq!(
        read_error_msg("/etc/x/config.toml", "permission denied"),
        "Could not read config file at '/etc/x/config.toml': permission denied"
    );
    assert_eq!(
        write_error_msg("/etc/x/config.toml", "disk full"),
        "Could not write config file to '/etc/x/config.toml': disk full"
    );
    assert_eq!(
        place_error_msg("no permission"),
        "Could not write config file: no permission"
    );
    assert_eq!(format_error_msg("bad value"), "Could not format TOML: bad value");
}
