use asd::cli::ConnectionArgs;
use asd::config::{Config, ConfigDirs};
use asd::connect::{ssh, Answer, Connect, Failure, Request, Stage};
use asd::error::{CodecError, ResolveError, SessionError};

fn connect_dirs() -> ConfigDirs {
    ConfigDirs::new(
        "/cfg".to_string(),
        "/data".to_string(),
        "/data".to_string(),
        Some("/state".to_string()),
        "/cache".to_string(),
        "/doc".to_string(),
        "/down".to_string(),
    )
}

fn alice() -> Config {
    let mut config = Config::default();
    config.default_login_user = "alice".to_string();
    config.default_login_port = 22;
    config
}

fn to_host() -> ConnectionArgs {
    let mut args = ConnectionArgs::default();
    args.remote = "host".to_string();
    args
}

fn start(args: ConnectionArgs) -> (Connect, Request) {
    ssh(args, alice(), connect_dirs())
}

/// Runs the operation over the answers and lists what it asked for.
fn run(args: ConnectionArgs, answers: Vec<Answer>) -> (Stage, Vec<Request>) {
    let (mut machine, first) = start(args);
    let mut asked = vec![first];
    for answer in answers {
        let (next, request) = machine.step(answer);
        machine = next;
        asked.push(request);
    }
    (machine.stage, asked)
}

fn open_as(user: &str, password: &str, port: u16, probe: bool) -> Request {
    Request::Open {
        user: user.to_string(),
        password: password.to_string(),
        remote: "host".to_string(),
        port,
        probe,
    }
}

#[test]
fn the_exact_cache_entry_is_looked_for_first() {
    let (machine, request) = start(to_host());
    assert_eq!(machine.stage, Stage::ExactLookup);
    assert_eq!(request, Request::Stat("/state/alice@host:22".to_string()));
}

#[test]
fn an_exact_cache_entry_is_decrypted_and_connected_with() {
    let (stage, asked) = run(
        to_host(),
        vec![Answer::Found(true), Answer::Secret(Ok("hunter2".to_string())), Answer::Ended(Ok(0))],
    );
    assert_eq!(
        asked,
        vec![
            Request::Stat("/state/alice@host:22".to_string()),
            Request::Decrypt("/state/alice@host:22".to_string()),
            open_as("alice", "hunter2", 22, true),
            Request::Finish(0),
        ]
    );
    assert_eq!(stage, Stage::Done);
}

#[test]
fn a_cache_entry_found_by_pattern_sets_the_identity() {
    let (stage, asked) = run(
        to_host(),
        vec![
            Answer::Found(false),
            Answer::Matches(vec!["/state/bob@host:2200".to_string()]),
            Answer::Secret(Ok("pw".to_string())),
        ],
    );
    assert_eq!(
        asked,
        vec![
            Request::Stat("/state/alice@host:22".to_string()),
            Request::Glob("/state/*@host:*".to_string()),
            Request::Decrypt("/state/bob@host:2200".to_string()),
            open_as("bob", "pw", 2200, true),
        ]
    );
    assert_eq!(stage, Stage::Connecting);
}

#[test]
fn the_pattern_prefers_the_user_in_effect() {
    let (_, asked) = run(
        to_host(),
        vec![
            Answer::Found(false),
            Answer::Matches(vec!["/state/bob@host:2200".to_string(), "/state/alice@host:2022".to_string()]),
        ],
    );
    assert_eq!(asked[2], Request::Decrypt("/state/alice@host:2022".to_string()));
}

#[test]
fn cache_only_fails_where_nothing_is_cached() {
    let mut args = to_host();
    args.cache = true;
    let (stage, asked) = run(args, vec![Answer::Found(false), Answer::Matches(Vec::new())]);
    assert_eq!(
        asked,
        vec![
            Request::Stat("/state/alice@host:22".to_string()),
            Request::Glob("/state/*@host:*".to_string()),
            Request::Fail(Failure::Resolve(ResolveError::NotCached)),
        ]
    );
    assert_eq!(stage, Stage::Failed);
}

#[test]
fn without_a_cache_entry_the_persistent_credentials_are_used_and_cached() {
    let (stage, asked) = run(
        to_host(),
        vec![
            Answer::Found(false),
            Answer::Matches(Vec::new()),
            Answer::Found(true),
            Answer::Secret(Ok("stored".to_string())),
            Answer::Written(Ok(())),
        ],
    );
    assert_eq!(
        asked,
        vec![
            Request::Stat("/state/alice@host:22".to_string()),
            Request::Glob("/state/*@host:*".to_string()),
            Request::Stat("/data/credentials/alice".to_string()),
            Request::Decrypt("/data/credentials/alice".to_string()),
            Request::Encrypt { path: "/state/alice@host:22".to_string(), secret: "stored".to_string() },
            open_as("alice", "stored", 22, false),
        ]
    );
    assert_eq!(stage, Stage::Connecting);
}

#[test]
fn with_nothing_stored_the_password_is_asked_for_and_cached() {
    let mut args = to_host();
    args.login_name = Some("carol".to_string());
    args.port = Some(2022);
    let (_, asked) = run(
        args,
        vec![
            Answer::Found(false),
            Answer::Matches(Vec::new()),
            Answer::Found(false),
            Answer::Secret(Ok("typed".to_string())),
            Answer::Written(Ok(())),
        ],
    );
    assert_eq!(
        asked,
        vec![
            Request::Stat("/state/carol@host:2022".to_string()),
            Request::Glob("/state/carol@host:2022".to_string()),
            Request::Stat("/data/credentials/carol".to_string()),
            Request::Prompt,
            Request::Encrypt { path: "/state/carol@host:2022".to_string(), secret: "typed".to_string() },
            open_as("carol", "typed", 2022, false),
        ]
    );
}

#[test]
fn ask_pass_writes_the_cache_entry_again() {
    let mut args = to_host();
    args.ask_pass = true;
    let (_, asked) = run(
        args,
        vec![Answer::Found(true), Answer::Secret(Ok("cached".to_string())), Answer::Written(Ok(()))],
    );
    assert_eq!(
        asked,
        vec![
            Request::Stat("/state/alice@host:22".to_string()),
            Request::Decrypt("/state/alice@host:22".to_string()),
            Request::Encrypt { path: "/state/alice@host:22".to_string(), secret: "cached".to_string() },
            open_as("alice", "cached", 22, true),
        ]
    );
}

#[test]
fn force_passes_over_the_cache_and_asks_anew() {
    let mut args = to_host();
    args.force = true;
    let (machine, first) = start(args.clone());
    assert_eq!(machine.stage, Stage::Secret { cache: None });
    assert_eq!(first, Request::Prompt);
    let (_, asked) = run(args, vec![Answer::Secret(Ok("fresh".to_string())), Answer::Written(Ok(()))]);
    assert_eq!(
        asked,
        vec![
            Request::Prompt,
            Request::Encrypt { path: "/state/alice@host:22".to_string(), secret: "fresh".to_string() },
            open_as("alice", "fresh", 22, false),
        ]
    );
}

#[test]
fn force_with_cache_only_has_nothing_to_use() {
    let mut args = to_host();
    args.force = true;
    args.cache = true;
    let (machine, first) = start(args);
    assert_eq!(machine.stage, Stage::Failed);
    assert_eq!(first, Request::Fail(Failure::Resolve(ResolveError::NotCached)));
}

#[test]
fn the_password_is_asked_for_at_most_once() {
    let mut flags = Vec::new();
    for force in [false, true] {
        for cache in [false, true] {
            flags.push((force, cache));
        }
    }
    for (force, cache) in flags {
        for exact in [false, true] {
            for stored in [false, true] {
                let mut args = to_host();
                args.force = force;
                args.cache = cache;
                let (_, asked) = run(
                    args,
                    vec![
                        Answer::Found(exact),
                        Answer::Matches(Vec::new()),
                        Answer::Found(stored),
                        Answer::Secret(Ok("pw".to_string())),
                        Answer::Written(Ok(())),
                        Answer::Ended(Ok(0)),
                        Answer::Found(false),
                    ],
                );
                let prompts = asked.iter().filter(|request| **request == Request::Prompt).count();
                assert!(prompts <= 1);
                if cache {
                    assert_eq!(prompts, 0);
                }
            }
        }
    }
}

#[test]
fn print_gives_the_password_and_opens_nothing() {
    let mut args = to_host();
    args.print = true;
    let (stage, asked) = run(args, vec![Answer::Found(true), Answer::Secret(Ok("hunter2".to_string()))]);
    assert_eq!(asked[2], Request::Print("hunter2".to_string()));
    assert_eq!(stage, Stage::Done);
}

#[test]
fn a_dry_run_stops_after_the_credentials() {
    let mut args = to_host();
    args.dry_run = true;
    let (stage, asked) = run(
        args,
        vec![
            Answer::Found(false),
            Answer::Matches(Vec::new()),
            Answer::Found(false),
            Answer::Secret(Ok("typed".to_string())),
            Answer::Written(Ok(())),
        ],
    );
    assert_eq!(asked[5], Request::Stop);
    assert_eq!(stage, Stage::Done);
}

#[test]
fn print_comes_before_a_dry_run() {
    let mut args = to_host();
    args.print = true;
    args.dry_run = true;
    let (_, asked) = run(args, vec![Answer::Found(true), Answer::Secret(Ok("pw".to_string()))]);
    assert_eq!(asked[2], Request::Print("pw".to_string()));
}

#[test]
fn a_secret_that_cannot_be_decrypted_fails_the_operation() {
    let refused = CodecError::CipherFailed("gpg: decryption failed: Bad session key".to_string());
    let (stage, asked) = run(to_host(), vec![Answer::Found(true), Answer::Secret(Err(refused.clone()))]);
    assert_eq!(asked[2], Request::Fail(Failure::Resolve(ResolveError::Codec(refused))));
    assert_eq!(stage, Stage::Failed);
}

#[test]
fn a_cache_entry_that_cannot_be_written_fails_the_operation() {
    let (stage, asked) = run(
        to_host(),
        vec![
            Answer::Found(false),
            Answer::Matches(Vec::new()),
            Answer::Found(false),
            Answer::Secret(Ok("typed".to_string())),
            Answer::Written(Err(CodecError::Io("read-only file system".to_string()))),
        ],
    );
    assert_eq!(
        asked[5],
        Request::Fail(Failure::Resolve(ResolveError::Codec(CodecError::Io("read-only file system".to_string()))))
    );
    assert_eq!(stage, Stage::Failed);
}

#[test]
fn a_badly_named_cache_entry_fails_the_operation() {
    let (stage, asked) = run(
        to_host(),
        vec![
            Answer::Found(false),
            Answer::Matches(vec!["/state/leftover".to_string()]),
            Answer::Secret(Ok("pw".to_string())),
        ],
    );
    assert_eq!(asked[3], Request::Fail(Failure::Resolve(ResolveError::BadCacheName)));
    assert_eq!(stage, Stage::Failed);
}

#[test]
fn a_session_that_fails_fails_the_operation() {
    let (stage, asked) = run(
        to_host(),
        vec![Answer::Found(true), Answer::Secret(Ok("stale".to_string())), Answer::Ended(Err(SessionError::AuthFailed))],
    );
    assert_eq!(asked[3], Request::Fail(Failure::Session(SessionError::AuthFailed)));
    assert_eq!(stage, Stage::Failed);
}

#[test]
fn an_answer_out_of_turn_fails_the_operation() {
    let (stage, asked) = run(to_host(), vec![Answer::Matches(Vec::new())]);
    assert_eq!(asked[1], Request::Fail(Failure::OutOfTurn));
    assert_eq!(stage, Stage::Failed);
}

#[test]
fn an_operation_that_is_over_stays_over() {
    let mut args = to_host();
    args.print = true;
    let (stage, asked) = run(
        args,
        vec![Answer::Found(true), Answer::Secret(Ok("pw".to_string())), Answer::Found(true)],
    );
    assert_eq!(asked[3], Request::Fail(Failure::OutOfTurn));
    assert_eq!(stage, Stage::Done);
}

#[test]
fn the_operation_keeps_what_it_was_started_with() {
    let (machine, _) = start(to_host());
    let (machine, _) = machine.step(Answer::Found(false));
    assert_eq!(machine.args, to_host());
    assert_eq!(machine.config, alice());
    assert_eq!(machine.dirs, connect_dirs());
}
