use asd::config::{cache_file_name, join, Config, ConfigDirs};

fn dirs() -> ConfigDirs {
    ConfigDirs::new(
        "/home/u/.config/asd".to_string(),
        "/home/u/.local/share/asd".to_string(),
        "/home/u/.local/share/asd".to_string(),
        Some("/home/u/.local/state/asd".to_string()),
        "/home/u/.cache/asd".to_string(),
        "/home/u/Documents".to_string(),
        "/home/u/Downloads".to_string(),
    )
}

#[test]
fn the_base_configuration_has_the_documented_values() {
    let config = Config::default();
    assert_eq!(config.default_login_user, "root");
    assert_eq!(config.default_login_port, 22);
    assert_eq!(config.cached_remote_password_expire_time, "12h");
    assert_eq!(config.login_command, vec![("root".to_string(), "$SHELL -l".to_string())]);
    assert_eq!(
        config.ssh_options,
        vec![
            "BatchMode=no",
            "Compression=yes",
            "ConnectionAttempts=1",
            "ConnectTimeout=10",
            "GlobalKnownHostsFile=/dev/null",
            "LogLevel=info",
            "NumberOfPasswordPrompts=1",
            "PasswordAuthentication=yes",
            "PreferredAuthentications=password",
            "StrictHostKeyChecking=no",
            "UserKnownHostsFile=/dev/null",
        ]
    );
}

#[test]
fn a_stored_configuration_is_taken_as_it_is() {
    let mut stored = Config::default();
    stored.default_login_user = "alice".to_string();
    stored.default_login_port = 2200;
    let config = Config::new(Some(stored.clone()));
    assert_eq!(config, stored);
}

#[test]
fn a_stored_configuration_with_a_user_twice_is_not_used() {
    let mut stored = Config::default();
    stored.default_login_user = "alice".to_string();
    stored.login_command.push(("alice".to_string(), "bash".to_string()));
    assert!(stored.is_valid());
    stored.login_command.push(("root".to_string(), "zsh".to_string()));
    assert!(!stored.is_valid());
    assert_eq!(Config::new(Some(stored)), Config::default());
}

#[test]
fn without_a_stored_configuration_the_base_one_is_taken() {
    assert_eq!(Config::new(None), Config::default());
}

#[test]
fn reset_gives_the_base_configuration() {
    assert_eq!(Config::reset(), Config::default());
}

#[test]
fn only_a_user_of_ones_own_choice_is_a_configured_user() {
    assert_eq!(Config::default().configured_user(), None);
    let mut config = Config::default();
    config.default_login_user = "alice".to_string();
    assert_eq!(config.configured_user(), Some("alice".to_string()));
}

#[test]
fn join_puts_a_slash_between() {
    assert_eq!(join("/a/b", "c"), "/a/b/c");
    assert_eq!(join("", "c"), "/c");
    assert_eq!(join("rel", ""), "rel/");
}

#[test]
fn cache_file_name_holds_user_remote_and_port() {
    assert_eq!(cache_file_name("alice", "host", 22), "alice@host:22");
    assert_eq!(cache_file_name("bob", "10.0.0.1", 2200), "bob@10.0.0.1:2200");
    assert_eq!(cache_file_name("", "", 0), "@:0");
    assert_eq!(cache_file_name("root", "::1", 65535), "root@::1:65535");
}

#[test]
fn the_state_directory_is_the_one_the_platform_names() {
    assert_eq!(dirs().state, "/home/u/.local/state/asd");
}

#[test]
fn the_state_directory_falls_back_below_the_local_data() {
    let dirs = ConfigDirs::new(
        "c".to_string(),
        "d".to_string(),
        "/home/u/Library/asd".to_string(),
        None,
        "k".to_string(),
        "doc".to_string(),
        "down".to_string(),
    );
    assert_eq!(dirs.state, "/home/u/Library/asd/state");
    assert_eq!(dirs.config, "c");
    assert_eq!(dirs.data, "d");
    assert_eq!(dirs.cache, "k");
    assert_eq!(dirs.document, "doc");
    assert_eq!(dirs.download, "down");
}

#[test]
fn the_artifacts_have_their_places() {
    let dirs = dirs();
    assert_eq!(dirs.config_file(), "/home/u/.config/asd/config.toml");
    assert_eq!(dirs.passphrase_file(), "/home/u/.local/share/asd/passphrase.gpg");
    assert_eq!(dirs.credentials_dir(), "/home/u/.local/share/asd/credentials");
    assert_eq!(dirs.credentials_file("alice"), "/home/u/.local/share/asd/credentials/alice");
    assert_eq!(dirs.cache_file("alice", "host", 22), "/home/u/.local/state/asd/alice@host:22");
}
