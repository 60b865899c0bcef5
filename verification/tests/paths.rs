use poseidon::paths::{env_snapshot, EnvSnapshot, Paths, Place, PORTABLE_SENTINEL};
use poseidon::telemetry::is_truthy;
use std::path::{Path, PathBuf};

const OS_DIR: &str = "/home/ada/.local/share/poseidon";

fn path(place: Place) -> PathBuf {
    let mut p = PathBuf::from(place.base);
    for step in place.steps {
        p.push(step);
    }
    p
}

#[test]
fn portable_env_flag_roots_under_binary_dir() {
    let bin = PathBuf::from("/opt/poseidon");
    let env = EnvSnapshot::new(true);
    let paths = Paths::resolve_with(&env, Some("/opt/poseidon"), false, None, OS_DIR);
    assert!(paths.is_portable());
    assert_eq!(path(paths.data_root()), bin.join(".portable"));
    assert_eq!(path(paths.database_path()), bin.join(".portable/poseidon.db"));
    assert_eq!(path(paths.log_dir()), bin.join(".portable/logs"));
}

#[test]
fn portable_sentinel_file_triggers_portable_mode() {
    // No env flag - the sentinel alone must flip portable mode on.
    assert_eq!(PORTABLE_SENTINEL, ".portable");
    let env = EnvSnapshot::default();
    let paths = Paths::resolve_with(&env, Some("/opt/poseidon"), true, None, OS_DIR);
    assert!(paths.is_portable());
    assert_eq!(path(paths.data_root()), Path::new("/opt/poseidon/.portable"));
}

#[test]
fn binary_named_portable_triggers_portable_mode_without_a_sentinel() {
    // The single-file portable download: the exe's own name carries the signal,
    // no sidecar `.portable` file. Case-insensitive substring.
    let bin = PathBuf::from("/downloads");
    let env = EnvSnapshot::default();
    for name in [
        "poseidon-portable",
        "POSEIDON-Portable",
        "poseidon_portable_win",
    ] {
        let paths = Paths::resolve_with(&env, Some("/downloads"), false, Some(name), OS_DIR);
        assert!(paths.is_portable(), "{name} should be portable");
        assert_eq!(path(paths.data_root()), bin.join(".portable"));
    }
    // The normal installed name is NOT portable.
    let installed =
        Paths::resolve_with(&env, Some("/downloads"), false, Some("poseidon-app"), OS_DIR);
    assert!(!installed.is_portable());
}

#[test]
fn data_dir_override_wins_over_os_dir_but_is_not_portable() {
    let env = EnvSnapshot::default().with_data_dir(Some("/data".to_string()));
    let paths = Paths::resolve_with(&env, Some("/usr/local/bin"), false, None, OS_DIR);
    assert!(!paths.is_portable());
    assert_eq!(path(paths.data_root()), Path::new("/data"));
    assert_eq!(path(paths.database_path()), Path::new("/data/poseidon.db"));
}

#[test]
fn portable_beats_data_dir_override() {
    // Portable is the strongest signal - even with a data-dir override set,
    // a portable environment stays confined beneath the binary.
    let env = EnvSnapshot::new(true).with_data_dir(Some("/data".to_string()));
    let paths = Paths::resolve_with(&env, Some("/opt/poseidon"), false, None, OS_DIR);
    assert!(paths.is_portable());
    assert_eq!(path(paths.data_root()), Path::new("/opt/poseidon/.portable"));
}

#[test]
fn non_portable_uses_os_data_dir_not_binary_dir() {
    let bin = PathBuf::from("/usr/local/bin");
    let env = EnvSnapshot::default();
    let paths = Paths::resolve_with(&env, Some("/usr/local/bin"), false, None, OS_DIR);
    assert!(!paths.is_portable());
    assert_eq!(path(paths.data_root()), Path::new(OS_DIR));
    assert!(!path(paths.data_root()).starts_with(&bin));
}

#[test]
fn truthy_parsing() {
    assert!(is_truthy("true"));
    assert!(is_truthy("1"));
    assert!(is_truthy("YES"));
    assert!(is_truthy(" On "));
    assert!(!is_truthy("false"));
    assert!(!is_truthy("0"));
    assert!(!is_truthy(""));
}

#[test]
fn everything_lies_beneath_the_root() {
    let env = env_snapshot(&Some("yes".to_string()), None);
    let paths = Paths::resolve_with(&env, Some("/opt/poseidon"), false, None, OS_DIR);
    assert!(paths.is_portable());
    let root = path(paths.data_root());
    for place in [
        paths.database_path(),
        paths.log_dir(),
        paths.cache_dir(),
        paths.az_sessions_dir(),
    ] {
        assert!(path(place).starts_with(&root));
    }
    for dir in paths.dirs() {
        assert!(path(dir).starts_with(&root));
    }
}
