//! The connect operation: from a remote named on the command line to an open
//! session, by way of the session cache, the persistent credentials or a
//! prompt.
//!
//! The operation is a state machine. It asks for one thing at a time with a
//! `Request`; whoever runs it does what is asked and reports back with an
//! `Answer`.

use crate::cli::ConnectionArgs;
use crate::config::{Config, ConfigDirs};
use crate::error::{
    view_result, CodecError, CodecErrorView, ResolveError, ResolveErrorView, SessionError,
    SessionErrorView,
};
use crate::store::{
    cached_file, connection_data, effective_user, exact_cache_file, exact_cache_path,
    cache_glob, cache_pattern, get_cached_file, get_connection_data, get_password, login_user,
    password_source, PasswordSource, PasswordSourceView,
};
use vstd::prelude::*;

verus! {

/// Why a connect operation failed.
#[derive(Debug, Clone, PartialEq, Eq)]
pub enum Failure {
    /// The credentials could not be resolved, read or written.
    Resolve(ResolveError),
    /// The session failed.
    Session(SessionError),
    /// An answer came that was not asked for.
    OutOfTurn,
}

/// A `Failure` as mathematical values.
pub enum FailureView {
    Resolve(ResolveErrorView),
    Session(SessionErrorView),
    OutOfTurn,
}

impl View for Failure {
    type V = FailureView;

    open spec fn view(&self) -> FailureView {
        match self {
            Failure::Resolve(e) => FailureView::Resolve(e@),
            Failure::Session(e) => FailureView::Session(e@),
            Failure::OutOfTurn => FailureView::OutOfTurn,
        }
    }
}

/// Where a connect operation stands.
#[derive(Debug, Clone, PartialEq, Eq)]
pub enum Stage {
    /// Resolving: is there a session cache artifact of exactly this login?
    ExactLookup,
    /// Resolving: which session cache artifacts match the pattern?
    PatternLookup,
    /// Resolving: is there a persistent credential artifact of the user?
    CredentialsLookup,
    /// Resolving: the password is being decrypted or asked for. `cache` is
    /// the session cache artifact in use, if one is.
    Secret { cache: Option<String> },
    /// The password is being written to the session cache. `probe` says
    /// whether it came from there.
    CacheWrite { probe: bool, user: String, port: u16, password: String },
    /// The session is open.
    Connecting,
    /// The operation is over.
    Done,
    /// The operation failed.
    Failed,
}

/// A `Stage` as mathematical values.
pub enum StageView {
    ExactLookup,
    PatternLookup,
    CredentialsLookup,
    Secret { cache: Option<Seq<char>> },
    CacheWrite { probe: bool, user: Seq<char>, port: u16, password: Seq<char> },
    Connecting,
    Done,
    Failed,
}

impl View for Stage {
    type V = StageView;

    open spec fn view(&self) -> StageView {
        match self {
            Stage::ExactLookup => StageView::ExactLookup,
            Stage::PatternLookup => StageView::PatternLookup,
            Stage::CredentialsLookup => StageView::CredentialsLookup,
            Stage::Secret { cache } => StageView::Secret {
                cache: match cache {
                    Some(path) => Some(path@),
                    None => None,
                },
            },
            Stage::CacheWrite { probe, user, port, password } => StageView::CacheWrite {
                probe: *probe,
                user: user@,
                port: *port,
                password: password@,
            },
            Stage::Connecting => StageView::Connecting,
            Stage::Done => StageView::Done,
            Stage::Failed => StageView::Failed,
        }
    }
}

/// What a connect operation asks for, or how it ends.
#[derive(Debug, Clone, PartialEq, Eq)]
pub enum Request {
    /// Say whether a file exists at this path.
    Stat(String),
    /// List the files that match this pattern.
    Glob(String),
    /// Decrypt the artifact at this path.
    Decrypt(String),
    /// Ask the user for the password, without echo.
    Prompt,
    /// Encrypt this secret into the artifact at this path.
    Encrypt { path: String, secret: String },
    /// Print this password. The operation is over: no connection is opened.
    Print(String),
    /// The credentials are resolved. The operation is over: no connection is
    /// opened.
    Stop,
    /// Open an interactive session. `probe` says that the password comes from
    /// the session cache, so that it is worth testing before it is trusted.
    Open { user: String, password: String, remote: String, port: u16, probe: bool },
    /// The session ended with this exit status. The operation is over.
    Finish(i32),
    /// The operation failed.
    Fail(Failure),
}

/// A `Request` as mathematical values.
pub enum RequestView {
    Stat(Seq<char>),
    Glob(Seq<char>),
    Decrypt(Seq<char>),
    Prompt,
    Encrypt { path: Seq<char>, secret: Seq<char> },
    Print(Seq<char>),
    Stop,
    Open { user: Seq<char>, password: Seq<char>, remote: Seq<char>, port: u16, probe: bool },
    Finish(i32),
    Fail(FailureView),
}

impl View for Request {
    type V = RequestView;

    open spec fn view(&self) -> RequestView {
        match self {
            Request::Stat(path) => RequestView::Stat(path@),
            Request::Glob(pattern) => RequestView::Glob(pattern@),
            Request::Decrypt(path) => RequestView::Decrypt(path@),
            Request::Prompt => RequestView::Prompt,
            Request::Encrypt { path, secret } => RequestView::Encrypt {
                path: path@,
                secret: secret@,
            },
            Request::Print(password) => RequestView::Print(password@),
            Request::Stop => RequestView::Stop,
            Request::Open { user, password, remote, port, probe } => RequestView::Open {
                user: user@,
                password: password@,
                remote: remote@,
                port: *port,
                probe: *probe,
            },
            Request::Finish(code) => RequestView::Finish(*code),
            Request::Fail(failure) => RequestView::Fail(failure@),
        }
    }
}

/// What is reported back to a connect operation.
#[derive(Debug, PartialEq, Eq)]
pub enum Answer {
    /// Whether the file exists.
    Found(bool),
    /// The files that match the pattern, in the order in which they were
    /// found.
    Matches(Vec<String>),
    /// The password that was decrypted or typed in, or why there is none.
    Secret(Result<String, CodecError>),
    /// The artifact was written, or why it was not.
    Written(Result<(), CodecError>),
    /// The session ended with this exit status, or failed.
    Ended(Result<i32, SessionError>),
}

/// An `Answer` as mathematical values.
pub enum AnswerView {
    Found(bool),
    Matches(Seq<Seq<char>>),
    Secret(Result<Seq<char>, CodecErrorView>),
    Written(Result<(), CodecErrorView>),
    Ended(Result<i32, SessionErrorView>),
}

impl View for Answer {
    type V = AnswerView;

    open spec fn view(&self) -> AnswerView {
        match self {
            Answer::Found(found) => AnswerView::Found(*found),
            Answer::Matches(files) => AnswerView::Matches(files.deep_view()),
            Answer::Secret(result) => AnswerView::Secret(view_result(*result)),
            Answer::Written(result) => AnswerView::Written(view_result(*result)),
            Answer::Ended(result) => AnswerView::Ended(view_result(*result)),
        }
    }
}

/// The failed stage with its reason.
pub open spec fn failed(failure: FailureView) -> (StageView, RequestView) {
    (StageView::Failed, RequestView::Fail(failure))
}

/// What follows the lookup in the session cache. With an artifact, it is
/// decrypted. Without one, a request for the cache only fails; else the
/// persistent credentials of the user in effect are looked for.
pub open spec fn after_lookup(
    args: &ConnectionArgs,
    config: &Config,
    dirs: &ConfigDirs,
    cache: Option<Seq<char>>,
) -> (StageView, RequestView) {
    match cache {
        Some(path) => (StageView::Secret { cache: Some(path) }, RequestView::Decrypt(path)),
        None => if args.cache {
            failed(FailureView::Resolve(ResolveErrorView::NotCached))
        } else {
            (
                StageView::CredentialsLookup,
                RequestView::Stat(dirs.spec_credentials_file(effective_user(args, config))),
            )
        },
    }
}

/// What follows once the credentials are settled: the password is printed,
/// or nothing more is done on a dry run, and a session is opened otherwise.
pub open spec fn decided(
    args: &ConnectionArgs,
    probe: bool,
    user: Seq<char>,
    port: u16,
    password: Seq<char>,
) -> (StageView, RequestView) {
    if args.print {
        (StageView::Done, RequestView::Print(password))
    } else if args.dry_run {
        (StageView::Done, RequestView::Stop)
    } else {
        (
            StageView::Connecting,
            RequestView::Open { user, password, remote: args.remote@, port, probe },
        )
    }
}

/// What follows the password. The identity is read from the session cache
/// artifact in use, or is the one in effect. The password is written to the
/// session cache artifact of exactly that identity where none was in use, or
/// where that was asked for.
pub open spec fn after_secret(
    args: &ConnectionArgs,
    config: &Config,
    dirs: &ConfigDirs,
    cache: Option<Seq<char>>,
    password: Seq<char>,
) -> (StageView, RequestView) {
    match connection_data(args, config, cache) {
        Err(e) => failed(FailureView::Resolve(e)),
        Ok((user, port)) => if cache is None || args.ask_pass {
            (
                StageView::CacheWrite { probe: cache is Some, user, port, password },
                RequestView::Encrypt {
                    path: dirs.spec_cache_file(user, args.remote@, port),
                    secret: password,
                },
            )
        } else {
            decided(args, true, user, port, password)
        },
    }
}

/// Where a connect operation starts and what it asks for first: the session
/// cache artifact of exactly the login in effect. Where the cache is to be
/// passed over, nothing is looked up and the password is asked for anew,
/// unless the cache only was asked for: then there is nothing to use.
pub open spec fn connect_start(args: &ConnectionArgs, config: &Config, dirs: &ConfigDirs) -> (
    StageView,
    RequestView,
) {
    if !args.force {
        (StageView::ExactLookup, RequestView::Stat(exact_cache_file(args, config, dirs)))
    } else if args.cache {
        failed(FailureView::Resolve(ResolveErrorView::NotCached))
    } else {
        (StageView::Secret { cache: None }, RequestView::Prompt)
    }
}

/// Where a connect operation stands after `answer` and what it asks for
/// next. An answer that was not asked for fails the operation, unless it is
/// over: then it stays as it ended.
pub open spec fn connect_step(
    args: &ConnectionArgs,
    config: &Config,
    dirs: &ConfigDirs,
    stage: StageView,
    answer: AnswerView,
) -> (StageView, RequestView) {
    match (stage, answer) {
        (StageView::ExactLookup, AnswerView::Found(found)) => if found {
            after_lookup(args, config, dirs, Some(exact_cache_file(args, config, dirs)))
        } else {
            (StageView::PatternLookup, RequestView::Glob(cache_pattern(args, config, dirs)))
        },
        (StageView::PatternLookup, AnswerView::Matches(files)) => after_lookup(
            args,
            config,
            dirs,
            match cached_file(args, config, dirs, false, files) {
                Ok(path) => Some(path),
                Err(_) => None,
            },
        ),
        (StageView::CredentialsLookup, AnswerView::Found(found)) => match password_source(
            args,
            config,
            dirs,
            None,
            found,
        ) {
            Ok(PasswordSourceView::Artifact(path)) => (
                StageView::Secret { cache: None },
                RequestView::Decrypt(path),
            ),
            Ok(PasswordSourceView::Prompt) => (
                StageView::Secret { cache: None },
                RequestView::Prompt,
            ),
            Err(e) => failed(FailureView::Resolve(e)),
        },
        (StageView::Secret { cache }, AnswerView::Secret(Ok(password))) => after_secret(
            args,
            config,
            dirs,
            cache,
            password,
        ),
        (StageView::Secret { cache }, AnswerView::Secret(Err(e))) => failed(
            FailureView::Resolve(ResolveErrorView::Codec(e)),
        ),
        (
            StageView::CacheWrite { probe, user, port, password },
            AnswerView::Written(Ok(_)),
        ) => decided(args, probe, user, port, password),
        (StageView::CacheWrite { probe, user, port, password }, AnswerView::Written(Err(e))) => failed(
            FailureView::Resolve(ResolveErrorView::Codec(e)),
        ),
        (StageView::Connecting, AnswerView::Ended(Ok(code))) => (
            StageView::Done,
            RequestView::Finish(code),
        ),
        (StageView::Connecting, AnswerView::Ended(Err(e))) => failed(FailureView::Session(e)),
        (StageView::Done, _) => (StageView::Done, RequestView::Fail(FailureView::OutOfTurn)),
        _ => failed(FailureView::OutOfTurn),
    }
}

/// A connect operation under way.
#[derive(Debug, Clone, PartialEq, Eq)]
pub struct Connect {
    pub args: ConnectionArgs,
    pub config: Config,
    pub dirs: ConfigDirs,
    pub stage: Stage,
}

/// The failed stage with its reason.
fn fail(failure: Failure) -> (r: (Stage, Request))
    ensures
        (r.0@, r.1@) == failed(failure@),
{
    (Stage::Failed, Request::Fail(failure))
}

/// What follows the lookup in the session cache.
fn lookup_done(args: &ConnectionArgs, config: &Config, dirs: &ConfigDirs, cache: Option<String>) -> (r:
    (Stage, Request))
    ensures
        (r.0@, r.1@) == after_lookup(
            args,
            config,
            dirs,
            match cache {
                Some(path) => Some(path@),
                None => None,
            },
        ),
{
    match cache {
        Some(path) => {
            let artifact = path.clone();
            (Stage::Secret { cache: Some(path) }, Request::Decrypt(artifact))
        },
        None => {
            if args.cache {
                fail(Failure::Resolve(ResolveError::NotCached))
            } else {
                let user = login_user(args, config);
                (Stage::CredentialsLookup, Request::Stat(dirs.credentials_file(user.as_str())))
            }
        },
    }
}

/// What follows once the credentials are settled.
fn decide(args: &ConnectionArgs, probe: bool, user: String, port: u16, password: String) -> (r: (
    Stage,
    Request,
))
    ensures
        (r.0@, r.1@) == decided(args, probe, user@, port, password@),
{
    if args.print {
        (Stage::Done, Request::Print(password))
    } else if args.dry_run {
        (Stage::Done, Request::Stop)
    } else {
        (Stage::Connecting, Request::Open { user, password, remote: args.remote.clone(), port, probe })
    }
}

/// What follows the password.
fn secret_done(
    args: &ConnectionArgs,
    config: &Config,
    dirs: &ConfigDirs,
    cache: Option<String>,
    password: String,
) -> (r: (Stage, Request))
    ensures
        (r.0@, r.1@) == after_secret(
            args,
            config,
            dirs,
            match cache {
                Some(path) => Some(path@),
                None => None,
            },
            password@,
        ),
{
    match get_connection_data(args, config, cache.as_ref()) {
        Err(e) => fail(Failure::Resolve(e)),
        Ok((user, port)) => {
            if cache.is_none() || args.ask_pass {
                let path = dirs.cache_file(user.as_str(), args.remote.as_str(), port);
                let secret = password.clone();
                (
                    Stage::CacheWrite { probe: cache.is_some(), user, port, password },
                    Request::Encrypt { path, secret },
                )
            } else {
                decide(args, true, user, port, password)
            }
        },
    }
}

/// Starts the connect operation for `args`.
pub fn ssh(args: ConnectionArgs, config: Config, dirs: ConfigDirs) -> (r: (Connect, Request))
    ensures
        r.0.args == args,
        r.0.config == config,
        r.0.dirs == dirs,
        (r.0.stage@, r.1@) == connect_start(&args, &config, &dirs),
{
    let (stage, request) = if !args.force {
        (Stage::ExactLookup, Request::Stat(exact_cache_path(&args, &config, &dirs)))
    } else if args.cache {
        fail(Failure::Resolve(ResolveError::NotCached))
    } else {
        (Stage::Secret { cache: None }, Request::Prompt)
    };
    (Connect { args, config, dirs, stage }, request)
}

impl Connect {
    /// Takes the answer to the last request and says what comes next.
    pub fn step(self, answer: Answer) -> (r: (Connect, Request))
        ensures
            r.0.args == self.args,
            r.0.config == self.config,
            r.0.dirs == self.dirs,
            (r.0.stage@, r.1@) == connect_step(
                &self.args,
                &self.config,
                &self.dirs,
                self.stage@,
                answer@,
            ),
    {
        let Connect { args, config, dirs, stage } = self;
        let (stage, request) = match (stage, answer) {
            (Stage::ExactLookup, Answer::Found(found)) => {
                if found {
                    let exact = exact_cache_path(&args, &config, &dirs);
                    lookup_done(&args, &config, &dirs, Some(exact))
                } else {
                    (Stage::PatternLookup, Request::Glob(cache_glob(&args, &config, &dirs)))
                }
            },
            (Stage::PatternLookup, Answer::Matches(files)) => {
                let cache = match get_cached_file(&args, &config, &dirs, false, &files) {
                    Ok(path) => Some(path),
                    Err(_) => None,
                };
                lookup_done(&args, &config, &dirs, cache)
            },
            (Stage::CredentialsLookup, Answer::Found(found)) => {
                match get_password(&args, &config, &dirs, None, found) {
                    Ok(PasswordSource::Artifact(path)) => (
                        Stage::Secret { cache: None },
                        Request::Decrypt(path),
                    ),
                    Ok(PasswordSource::Prompt) => (Stage::Secret { cache: None }, Request::Prompt),
                    Err(e) => fail(Failure::Resolve(e)),
                }
            },
            (Stage::Secret { cache }, Answer::Secret(Ok(password))) => secret_done(
                &args,
                &config,
                &dirs,
                cache,
                password,
            ),
            (Stage::Secret { cache }, Answer::Secret(Err(e))) => fail(
                Failure::Resolve(ResolveError::Codec(e)),
            ),
            (Stage::CacheWrite { probe, user, port, password }, Answer::Written(Ok(_))) => decide(
                &args,
                probe,
                user,
                port,
                password,
            ),
            (Stage::CacheWrite { probe, user, port, password }, Answer::Written(Err(e))) => fail(
                Failure::Resolve(ResolveError::Codec(e)),
            ),
            (Stage::Connecting, Answer::Ended(Ok(code))) => (Stage::Done, Request::Finish(code)),
            (Stage::Connecting, Answer::Ended(Err(e))) => fail(Failure::Session(e)),
            (Stage::Done, _) => (Stage::Done, Request::Fail(Failure::OutOfTurn)),
            _ => fail(Failure::OutOfTurn),
        };
        (Connect { args, config, dirs, stage }, request)
    }
}

/// Whether the operation is over at `stage`.
pub open spec fn is_over(stage: StageView) -> bool {
    stage is Done || stage is Failed
}

/// An operation that is over stays as it ended, whatever is answered.
pub proof fn lemma_over_stays_over(
    args: &ConnectionArgs,
    config: &Config,
    dirs: &ConfigDirs,
    stage: StageView,
    answer: AnswerView,
)
    requires
        is_over(stage),
    ensures
        connect_step(args, config, dirs, stage, answer) == (
            stage,
            RequestView::Fail(FailureView::OutOfTurn),
        ),
{
}

/// Where the session cache artifact of exactly the login in effect exists,
/// it is the one that is decrypted, whatever else the cache holds.
pub proof fn lemma_exact_match_first(args: &ConnectionArgs, config: &Config, dirs: &ConfigDirs)
    requires
        !args.force,
    ensures
        connect_start(args, config, dirs) == (
            StageView::ExactLookup,
            RequestView::Stat(exact_cache_file(args, config, dirs)),
        ),
        connect_step(args, config, dirs, StageView::ExactLookup, AnswerView::Found(true)) == (
            StageView::Secret { cache: Some(exact_cache_file(args, config, dirs)) },
            RequestView::Decrypt(exact_cache_file(args, config, dirs)),
        ),
{
}

/// An operation that was asked to use the cache only never asks for a
/// prompt, at no stage and whatever is answered; and where the cache holds
/// nothing for the login it fails, as not cached.
pub proof fn lemma_cache_only_fails_closed(
    args: &ConnectionArgs,
    config: &Config,
    dirs: &ConfigDirs,
    stage: StageView,
    answer: AnswerView,
)
    requires
        args.cache,
    ensures
        !(connect_start(args, config, dirs).1 is Prompt),
        !(connect_step(args, config, dirs, stage, answer).1 is Prompt),
        connect_step(
            args,
            config,
            dirs,
            StageView::PatternLookup,
            AnswerView::Matches(Seq::empty()),
        ) == failed(FailureView::Resolve(ResolveErrorView::NotCached)),
{
}

/// An operation that was asked to print the password, or to make a dry run,
/// never asks for a session to be opened.
pub proof fn lemma_print_and_dry_run_open_nothing(
    args: &ConnectionArgs,
    config: &Config,
    dirs: &ConfigDirs,
    stage: StageView,
    answer: AnswerView,
)
    requires
        args.print || args.dry_run,
    ensures
        !(connect_start(args, config, dirs).1 is Open),
        !(connect_step(args, config, dirs, stage, answer).1 is Open),
{
}

/// The password is written to the session cache exactly where no artifact
/// of the cache was in use or the write was asked for, and then to the
/// artifact of exactly the identity that is connected with.
pub proof fn lemma_cache_write(
    args: &ConnectionArgs,
    config: &Config,
    dirs: &ConfigDirs,
    cache: Option<Seq<char>>,
    password: Seq<char>,
)
    requires
        connection_data(args, config, cache) is Ok,
    ensures
        ({
            let (user, port) = connection_data(args, config, cache)->Ok_0;
            let next = connect_step(
                args,
                config,
                dirs,
                StageView::Secret { cache },
                AnswerView::Secret(Ok(password)),
            );
            if cache is None || args.ask_pass {
                next.1 == (RequestView::Encrypt {
                    path: dirs.spec_cache_file(user, args.remote@, port),
                    secret: password,
                })
            } else {
                !(next.1 is Encrypt)
            }
        }),
{
}

/// How far an operation has come.
pub open spec fn progress(stage: StageView) -> nat {
    match stage {
        StageView::ExactLookup => 0,
        StageView::PatternLookup => 1,
        StageView::CredentialsLookup => 2,
        StageView::Secret { .. } => 3,
        StageView::CacheWrite { .. } => 4,
        StageView::Connecting => 5,
        StageView::Done => 6,
        StageView::Failed => 6,
    }
}

/// The stage that an operation reaches, and the requests that it makes in
/// their order, when it is given `answers` in turn.
pub open spec fn connect_run(
    args: &ConnectionArgs,
    config: &Config,
    dirs: &ConfigDirs,
    answers: Seq<AnswerView>,
) -> (StageView, Seq<RequestView>)
    decreases answers.len(),
{
    if answers.len() == 0 {
        let (stage, request) = connect_start(args, config, dirs);
        (stage, seq![request])
    } else {
        let (stage, requests) = connect_run(args, config, dirs, answers.drop_last());
        let (next, request) = connect_step(args, config, dirs, stage, answers.last());
        (next, requests.push(request))
    }
}

/// How many of `requests` ask for a prompt.
pub open spec fn prompts(requests: Seq<RequestView>) -> nat
    decreases requests.len(),
{
    if requests.len() == 0 {
        0
    } else if requests.last() is Prompt {
        prompts(requests.drop_last()) + 1
    } else {
        prompts(requests.drop_last())
    }
}

/// Every answer brings an operation forward, and a prompt is asked for at
/// one stage only: when the persistent credentials were looked for and not
/// found. At the start it is asked for only to pass over the cache.
pub proof fn lemma_operation_advances(
    args: &ConnectionArgs,
    config: &Config,
    dirs: &ConfigDirs,
    stage: StageView,
    answer: AnswerView,
)
    ensures
        !is_over(stage) ==> progress(connect_step(args, config, dirs, stage, answer).0) > progress(
            stage,
        ),
        connect_step(args, config, dirs, stage, answer).1 is Prompt ==> stage
            is CredentialsLookup && answer == AnswerView::Found(false),
        connect_start(args, config, dirs).1 is Prompt <==> args.force && !args.cache,
        connect_start(args, config, dirs).1 is Prompt ==> progress(
            connect_start(args, config, dirs).0,
        ) == 3,
{
}

/// An operation asks for a prompt at most once, whatever it is answered, and
/// it is over after six answers at the latest.
pub proof fn lemma_at_most_one_prompt(
    args: &ConnectionArgs,
    config: &Config,
    dirs: &ConfigDirs,
    answers: Seq<AnswerView>,
)
    ensures
        prompts(connect_run(args, config, dirs, answers).1) <= 1,
        prompts(connect_run(args, config, dirs, answers).1) == 1 ==> progress(
            connect_run(args, config, dirs, answers).0,
        ) >= 3,
        progress(connect_run(args, config, dirs, answers).0) >= answers.len() || is_over(
            connect_run(args, config, dirs, answers).0,
        ),
        answers.len() >= 6 ==> is_over(connect_run(args, config, dirs, answers).0),
    decreases answers.len(),
{
    if answers.len() == 0 {
        let (stage, request) = connect_start(args, config, dirs);
        let requests = seq![request];
        lemma_operation_advances(args, config, dirs, stage, AnswerView::Found(false));
        assert(requests.drop_last() =~= Seq::<RequestView>::empty());
        assert(prompts(requests.drop_last()) == 0);
    } else {
        let before = answers.drop_last();
        lemma_at_most_one_prompt(args, config, dirs, before);
        let (stage, requests) = connect_run(args, config, dirs, before);
        let (next, request) = connect_step(args, config, dirs, stage, answers.last());
        lemma_operation_advances(args, config, dirs, stage, answers.last());
        if is_over(stage) {
            lemma_over_stays_over(args, config, dirs, stage, answers.last());
        }
        assert(requests.push(request).drop_last() =~= requests);
    }
}

/// The request that settles where the password comes from, once the lookup
/// in the session cache has given `cache`: the one made at once, or the one
/// made after the persistent credentials were looked for and `found` or not.
pub open spec fn password_request(
    args: &ConnectionArgs,
    config: &Config,
    dirs: &ConfigDirs,
    cache: Option<Seq<char>>,
    found: bool,
) -> RequestView {
    let (stage, request) = after_lookup(args, config, dirs, cache);
    if stage is CredentialsLookup {
        connect_step(args, config, dirs, stage, AnswerView::Found(found)).1
    } else {
        request
    }
}

/// An operation takes the password from where the credential store says:
/// it decrypts the artifact that is named, asks where a prompt is due, and
/// fails where the store fails.
pub proof fn lemma_password_from_its_source(
    args: &ConnectionArgs,
    config: &Config,
    dirs: &ConfigDirs,
    cache: Option<Seq<char>>,
    found: bool,
)
    ensures
        password_request(args, config, dirs, cache, found) == match password_source(
            args,
            config,
            dirs,
            cache,
            found,
        ) {
            Ok(PasswordSourceView::Artifact(path)) => RequestView::Decrypt(path),
            Ok(PasswordSourceView::Prompt) => RequestView::Prompt,
            Err(e) => RequestView::Fail(FailureView::Resolve(e)),
        },
{
}

} // verus!
