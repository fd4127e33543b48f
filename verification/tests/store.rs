use asd::cli::ConnectionArgs;
use asd::config::{Config, ConfigDirs};
use asd::error::ResolveError;
use asd::store::{
    cache_glob, exact_cache_path, get_cached_file, get_connection_data, get_password,
    identity_from_name, login_port, login_user, register_credentials, PasswordSource,
};

fn store_dirs() -> ConfigDirs {
    ConfigDirs::new(
        "/cfg".to_string(),
        "/data".to_string(),
        "/data".to_string(),
        Some("/state".to_string()),
        "/cache".to_string(),
        "/doc".to_string(),
        "/down".to_string(),
    )
}

fn config_of(user: &str, port: u16) -> Config {
    let mut config = Config::default();
    config.default_login_user = user.to_string();
    config.default_login_port = port;
    config
}

fn args_for(remote: &str) -> ConnectionArgs {
    let mut args = ConnectionArgs::default();
    args.remote = remote.to_string();
    args
}

fn paths(list: &[&str]) -> Vec<String> {
    list.iter().map(|p| p.to_string()).collect()
}

#[test]
fn the_login_in_effect_is_the_configured_one_unless_overridden() {
    let config = config_of("alice", 22);
    let mut args = args_for("host");
    assert_eq!(login_user(&args, &config), "alice");
    assert_eq!(login_port(&args, &config), 22);
    args.login_name = Some("bob".to_string());
    args.port = Some(2200);
    assert_eq!(login_user(&args, &config), "bob");
    assert_eq!(login_port(&args, &config), 2200);
}

#[test]
fn the_exact_cache_path_names_the_login_in_effect() {
    let mut args = args_for("host");
    assert_eq!(exact_cache_path(&args, &config_of("alice", 22), &store_dirs()), "/state/alice@host:22");
    args.port = Some(2200);
    assert_eq!(exact_cache_path(&args, &config_of("alice", 22), &store_dirs()), "/state/alice@host:2200");
}

#[test]
fn the_pattern_has_a_star_for_what_was_not_overridden() {
    let config = config_of("alice", 22);
    let dirs = store_dirs();
    let mut args = args_for("host");
    assert_eq!(cache_glob(&args, &config, &dirs), "/state/*@host:*");
    args.login_name = Some("bob".to_string());
    assert_eq!(cache_glob(&args, &config, &dirs), "/state/bob@host:*");
    args.port = Some(2200);
    assert_eq!(cache_glob(&args, &config, &dirs), "/state/bob@host:2200");
    args.login_name = None;
    assert_eq!(cache_glob(&args, &config, &dirs), "/state/*@host:2200");
}

#[test]
fn exact_match_priority() {
    let args = args_for("host");
    let config = config_of("alice", 22);
    let others = paths(&["/state/alice@host:2200", "/state/bob@host:22", "/state/alice@host:22"]);
    assert_eq!(
        get_cached_file(&args, &config, &store_dirs(), true, &others),
        Ok("/state/alice@host:22".to_string())
    );
    assert_eq!(
        get_cached_file(&args, &config, &store_dirs(), true, &paths(&[])),
        Ok("/state/alice@host:22".to_string())
    );
}

#[test]
fn fallback_narrowing() {
    let args = args_for("host");
    let config = config_of("alice", 2222);
    let dirs = store_dirs();
    assert_eq!(
        get_cached_file(&args, &config, &dirs, false, &paths(&["/state/alice@host:22", "/state/bob@host:2200"])),
        Ok("/state/alice@host:22".to_string())
    );
    assert_eq!(
        get_cached_file(&args, &config, &dirs, false, &paths(&["/state/bob@host:2200", "/state/alice@host:22"])),
        Ok("/state/alice@host:22".to_string())
    );
}

#[test]
fn among_the_artifacts_of_the_user_the_first_found_is_taken() {
    let args = args_for("host");
    let config = config_of("alice", 2222);
    assert_eq!(
        get_cached_file(
            &args,
            &config,
            &store_dirs(),
            false,
            &paths(&["/state/bob@host:1", "/state/alice@host:2200", "/state/alice@host:22"])
        ),
        Ok("/state/alice@host:2200".to_string())
    );
}

#[test]
fn without_an_artifact_of_the_user_the_first_found_is_taken() {
    let args = args_for("host");
    let config = config_of("alice", 22);
    assert_eq!(
        get_cached_file(&args, &config, &store_dirs(), false, &paths(&["/state/bob@host:2200", "/state/carol@host:22"])),
        Ok("/state/bob@host:2200".to_string())
    );
}

#[test]
fn a_user_is_no_prefix_of_another_user() {
    let args = args_for("host");
    let config = config_of("al", 22);
    assert_eq!(
        get_cached_file(&args, &config, &store_dirs(), false, &paths(&["/state/alice@host:22", "/state/al@host:23"])),
        Ok("/state/al@host:23".to_string())
    );
}

#[test]
fn the_user_is_looked_for_in_the_file_name_only() {
    let args = args_for("host");
    let config = config_of("alice", 22);
    assert_eq!(
        get_cached_file(&args, &config, &store_dirs(), false, &paths(&["alice@/bob@host:22", "/x/alice@host:23"])),
        Ok("/x/alice@host:23".to_string())
    );
}

#[test]
fn nothing_found_is_not_cached() {
    let args = args_for("host");
    let config = config_of("alice", 22);
    assert_eq!(
        get_cached_file(&args, &config, &store_dirs(), false, &paths(&[])),
        Err(ResolveError::NotCached)
    );
}

#[test]
fn a_cached_password_is_decrypted() {
    let args = args_for("host");
    let cache = "/state/alice@host:22".to_string();
    assert_eq!(
        get_password(&args, &config_of("alice", 22), &store_dirs(), Some(&cache), false),
        Ok(PasswordSource::Artifact(cache.clone()))
    );
    assert_eq!(
        get_password(&args, &config_of("alice", 22), &store_dirs(), Some(&cache), true),
        Ok(PasswordSource::Artifact(cache.clone()))
    );
}

#[test]
fn cache_only_fail_closed() {
    let mut args = args_for("host");
    args.cache = true;
    let config = config_of("alice", 22);
    assert_eq!(get_password(&args, &config, &store_dirs(), None, false), Err(ResolveError::NotCached));
    assert_eq!(get_password(&args, &config, &store_dirs(), None, true), Err(ResolveError::NotCached));
}

#[test]
fn cache_only_still_uses_the_cache() {
    let mut args = args_for("host");
    args.cache = true;
    let cache = "/state/alice@host:22".to_string();
    assert_eq!(
        get_password(&args, &config_of("alice", 22), &store_dirs(), Some(&cache), false),
        Ok(PasswordSource::Artifact(cache.clone()))
    );
}

#[test]
fn persistent_credentials_come_before_a_prompt() {
    let mut args = args_for("host");
    let config = config_of("alice", 22);
    assert_eq!(
        get_password(&args, &config, &store_dirs(), None, true),
        Ok(PasswordSource::Artifact("/data/credentials/alice".to_string()))
    );
    args.login_name = Some("bob".to_string());
    assert_eq!(
        get_password(&args, &config, &store_dirs(), None, true),
        Ok(PasswordSource::Artifact("/data/credentials/bob".to_string()))
    );
}

#[test]
fn with_nothing_stored_the_user_is_asked() {
    let args = args_for("host");
    assert_eq!(
        get_password(&args, &config_of("alice", 22), &store_dirs(), None, false),
        Ok(PasswordSource::Prompt)
    );
}

#[test]
fn the_identity_is_read_from_the_name() {
    assert_eq!(identity_from_name("alice@host:22"), Ok(("alice".to_string(), 22)));
    assert_eq!(identity_from_name("bob@10.0.0.1:2200"), Ok(("bob".to_string(), 2200)));
    assert_eq!(identity_from_name("root@::1:65535"), Ok(("root".to_string(), 65535)));
    assert_eq!(identity_from_name("@:0"), Ok(("".to_string(), 0)));
}

#[test]
fn the_user_ends_at_the_last_at_sign() {
    assert_eq!(identity_from_name("a@b@host:22"), Ok(("a@b".to_string(), 22)));
}

#[test]
fn a_name_without_user_or_port_is_a_bad_name() {
    assert_eq!(identity_from_name("host:22"), Err(ResolveError::BadCacheName));
    assert_eq!(identity_from_name("alice@host"), Err(ResolveError::BadCacheName));
    assert_eq!(identity_from_name("alice@host:"), Err(ResolveError::BadCacheName));
    assert_eq!(identity_from_name("alice@host:ssh"), Err(ResolveError::BadCacheName));
    assert_eq!(identity_from_name("alice@host:65536"), Err(ResolveError::BadCacheName));
    assert_eq!(identity_from_name("alice:22@host"), Err(ResolveError::BadCacheName));
    assert_eq!(identity_from_name(""), Err(ResolveError::BadCacheName));
}

#[test]
fn a_cache_entry_sets_the_identity() {
    let args = args_for("host");
    let config = config_of("alice", 22);
    let cache = "/state/bob@host:2200".to_string();
    assert_eq!(get_connection_data(&args, &config, Some(&cache)), Ok(("bob".to_string(), 2200)));
}

#[test]
fn without_a_cache_entry_the_identity_is_the_one_in_effect() {
    let mut args = args_for("host");
    let config = config_of("alice", 22);
    assert_eq!(get_connection_data(&args, &config, None), Ok(("alice".to_string(), 22)));
    args.login_name = Some("carol".to_string());
    args.port = Some(2022);
    assert_eq!(get_connection_data(&args, &config, None), Ok(("carol".to_string(), 2022)));
}

#[test]
fn a_badly_named_cache_entry_is_refused() {
    let args = args_for("host");
    let cache = "/state/notes.txt".to_string();
    assert_eq!(
        get_connection_data(&args, &config_of("alice", 22), Some(&cache)),
        Err(ResolveError::BadCacheName)
    );
}

#[test]
fn the_exact_cache_entry_gives_back_the_login_in_effect() {
    let dirs = store_dirs();
    for (user, remote, port) in [("alice", "host", 22u16), ("a@b", "h.example.org", 2200), ("root", "::1", 65535), ("x", "y", 0)] {
        let mut args = args_for(remote);
        args.login_name = Some(user.to_string());
        args.port = Some(port);
        let config = Config::default();
        let exact = exact_cache_path(&args, &config, &dirs);
        assert_eq!(get_connection_data(&args, &config, Some(&exact)), Ok((user.to_string(), port)));
    }
}

#[test]
fn credentials_are_registered_for_the_user_given() {
    assert_eq!(
        register_credentials(Some("alice".to_string()), "ignored", &store_dirs()),
        ("alice".to_string(), "/data/credentials/alice".to_string())
    );
}

#[test]
fn credentials_are_registered_for_the_user_typed_in() {
    assert_eq!(
        register_credentials(None, "  bob \n", &store_dirs()),
        ("bob".to_string(), "/data/credentials/bob".to_string())
    );
}

#[test]
fn resolve_errors_have_their_messages() {
    assert_eq!(ResolveError::NotCached.message(), "credentials cache not found");
    assert_eq!(ResolveError::BadCacheName.message(), "credentials cache name holds no user and port");
}
