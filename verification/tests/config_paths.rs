use object0::config_paths::{
    expand_user_path, favorites_path, folder_sync_records_path, folder_sync_rules_path, job_history_path, join,
    object0_config_dir, vault_path, ConfigError, HostEnv, Platform,
};

fn env(platform: Platform, home: Option<&str>, user_profile: Option<&str>) -> HostEnv {
    HostEnv {
        platform,
        home: home.map(|s| s.to_string()),
        user_profile: user_profile.map(|s| s.to_string()),
    }
}

#[test]
fn config_dir_on_linux_is_under_dot_config() {
    let e = env(Platform::Other, Some("/home/ann"), None);
    assert_eq!(object0_config_dir(&e), Ok("/home/ann/.config/object0".to_string()));
}

#[test]
fn config_dir_on_macos_is_under_application_support() {
    let e = env(Platform::MacOs, Some("/Users/ann"), None);
    assert_eq!(
        object0_config_dir(&e),
        Ok("/Users/ann/Library/Application Support/object0".to_string())
    );
}

#[test]
fn config_dir_on_windows_prefers_userprofile() {
    let e = env(Platform::Windows, Some("/home/ann"), Some("C:/Users/ann"));
    assert_eq!(object0_config_dir(&e), Ok("C:/Users/ann/.config/object0".to_string()));
    let e = env(Platform::Windows, Some("/home/ann"), None);
    assert_eq!(object0_config_dir(&e), Ok("/home/ann/.config/object0".to_string()));
}

#[test]
fn config_dir_without_home_is_an_error() {
    let e = env(Platform::Other, None, Some("C:/Users/ann"));
    assert_eq!(object0_config_dir(&e), Err(ConfigError::HomeUnresolved));
    assert_eq!(ConfigError::HomeUnresolved.message(), "Unable to resolve HOME");
    let e = env(Platform::Windows, None, None);
    assert_eq!(object0_config_dir(&e), Err(ConfigError::UserProfileOrHomeUnresolved));
    assert_eq!(
        ConfigError::UserProfileOrHomeUnresolved.message(),
        "Unable to resolve USERPROFILE/HOME"
    );
}

#[test]
fn files_live_in_the_config_dir() {
    let e = env(Platform::Other, Some("/home/ann"), None);
    assert_eq!(vault_path(&e), Ok("/home/ann/.config/object0/vault.enc".to_string()));
    assert_eq!(favorites_path(&e), Ok("/home/ann/.config/object0/favorites.json".to_string()));
    assert_eq!(
        folder_sync_rules_path(&e),
        Ok("/home/ann/.config/object0/folder-sync-rules.json".to_string())
    );
    assert_eq!(job_history_path(&e), Ok("/home/ann/.config/object0/job-history.json".to_string()));
    assert_eq!(
        folder_sync_records_path(&e, "rule-1"),
        Ok("/home/ann/.config/object0/folder-sync/rule-1.json".to_string())
    );
}

#[test]
fn files_without_home_are_errors() {
    let e = env(Platform::MacOs, None, None);
    assert_eq!(vault_path(&e), Err(ConfigError::HomeUnresolved));
    assert_eq!(folder_sync_records_path(&e, "r"), Err(ConfigError::HomeUnresolved));
}

#[test]
fn join_adds_one_separator() {
    assert_eq!(join("/a", "b"), "/a/b");
    assert_eq!(join("/a/", "b"), "/a/b");
    assert_eq!(join("", "b"), "b");
    assert_eq!(join("/a", "/b"), "/b");
}

#[test]
fn expand_user_path_reads_tilde_as_home() {
    assert_eq!(expand_user_path("~/sync/docs", Some("/home/ann")), "/home/ann/sync/docs");
    assert_eq!(expand_user_path("~/sync", None), "~/sync");
    assert_eq!(expand_user_path("/abs/path", Some("/home/ann")), "/abs/path");
    assert_eq!(expand_user_path("~other/x", Some("/home/ann")), "~other/x");
}
