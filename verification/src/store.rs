//! The credential store: which artifact answers for a login on a remote,
//! where the password comes from, and which identity a cached artifact
//! stands for.
//!
//! The functions decide; they do not touch the file system. What was seen
//! there (whether a file exists, which files match a pattern) is handed in.

use crate::cli::ConnectionArgs;
use crate::config::{cache_name, file_name, lemma_file_name_of_join, path_join, Config, ConfigDirs};
use crate::error::{view_result, ResolveError, ResolveErrorView};
use crate::text::{
    chars_of, decimal, find_last, has_prefix, is_digit, last_index_of, lemma_decimal_number,
    lemma_last_index_of_at, lemma_parse_port_decimal, parse_port, port_of, starts_with,
    tail_after, trim, trimmed, decimal_text,
};
use vstd::prelude::*;
use vstd::string::StringExecFns;

verus! {

/// The login user in effect: the one given on the command line, else the
/// configured one.
pub open spec fn effective_user(args: &ConnectionArgs, config: &Config) -> Seq<char> {
    match args.login_name {
        Some(user) => user@,
        None => config.default_login_user@,
    }
}

/// The port in effect: the one given on the command line, else the
/// configured one.
pub open spec fn effective_port(args: &ConnectionArgs, config: &Config) -> u16 {
    match args.port {
        Some(port) => port,
        None => config.default_login_port,
    }
}

/// Path of the session cache artifact of exactly the login in effect.
pub open spec fn exact_cache_file(
    args: &ConnectionArgs,
    config: &Config,
    dirs: &ConfigDirs,
) -> Seq<char> {
    dirs.spec_cache_file(effective_user(args, config), args.remote@, effective_port(args, config))
}

/// The pattern of the session cache artifacts that may stand in for the
/// exact one: `*` takes the place of the user and of the port, each unless it
/// was given on the command line.
pub open spec fn cache_pattern(args: &ConnectionArgs, config: &Config, dirs: &ConfigDirs) -> Seq<
    char,
> {
    let user = match args.login_name {
        Some(user) => user@,
        None => seq!['*'],
    };
    let port = match args.port {
        Some(port) => decimal(port as nat),
        None => seq!['*'],
    };
    path_join(dirs.state@, user + seq!['@'] + args.remote@ + seq![':'] + port)
}

/// Whether the artifact at `path` belongs to `user`: its file name begins
/// with the user and `@`.
pub open spec fn belongs_to(path: Seq<char>, user: Seq<char>) -> bool {
    has_prefix(file_name(path), user + seq!['@'])
}

/// Index of the first of `files` that belongs to `user`, or their number if
/// none does.
pub open spec fn first_of_user(files: Seq<Seq<char>>, user: Seq<char>) -> int
    decreases files.len(),
{
    if files.len() == 0 || belongs_to(files[0], user) {
        0
    } else {
        1 + first_of_user(files.drop_first(), user)
    }
}

/// The artifact chosen among `files`, which is not empty: the first that
/// belongs to `user`, else the first of all.
pub open spec fn preferred_file(files: Seq<Seq<char>>, user: Seq<char>) -> Seq<char> {
    let i = first_of_user(files, user);
    if i < files.len() {
        files[i]
    } else {
        files[0]
    }
}

/// The session cache artifact that answers for the login in effect.
///
/// `exact_found` says whether the artifact of exactly that login exists, and
/// `matches` lists, in the order in which they were found, the artifacts that
/// match `cache_pattern`.
pub open spec fn cached_file(
    args: &ConnectionArgs,
    config: &Config,
    dirs: &ConfigDirs,
    exact_found: bool,
    matches: Seq<Seq<char>>,
) -> Result<Seq<char>, ResolveErrorView> {
    if exact_found {
        Ok(exact_cache_file(args, config, dirs))
    } else if matches.len() == 0 {
        Err(ResolveErrorView::NotCached)
    } else {
        Ok(preferred_file(matches, effective_user(args, config)))
    }
}

/// Where a password is to be taken from.
#[derive(Debug, Clone, PartialEq, Eq)]
pub enum PasswordSource {
    /// Decrypt the artifact at this path.
    Artifact(String),
    /// Ask the user, without echo.
    Prompt,
}

/// A `PasswordSource` as mathematical values.
pub enum PasswordSourceView {
    Artifact(Seq<char>),
    Prompt,
}

impl View for PasswordSource {
    type V = PasswordSourceView;

    open spec fn view(&self) -> PasswordSourceView {
        match self {
            PasswordSource::Artifact(path) => PasswordSourceView::Artifact(path@),
            PasswordSource::Prompt => PasswordSourceView::Prompt,
        }
    }
}

/// Where the password of the login in effect comes from.
///
/// `cache` is the session cache artifact that was resolved, if one was, and
/// `credentials_found` says whether the persistent credential artifact of
/// the user in effect exists.
pub open spec fn password_source(
    args: &ConnectionArgs,
    config: &Config,
    dirs: &ConfigDirs,
    cache: Option<Seq<char>>,
    credentials_found: bool,
) -> Result<PasswordSourceView, ResolveErrorView> {
    match cache {
        Some(path) => Ok(PasswordSourceView::Artifact(path)),
        None => if args.cache {
            Err(ResolveErrorView::NotCached)
        } else if credentials_found {
            Ok(
                PasswordSourceView::Artifact(
                    dirs.spec_credentials_file(effective_user(args, config)),
                ),
            )
        } else {
            Ok(PasswordSourceView::Prompt)
        },
    }
}

/// The user and the port that the name of a session cache artifact holds:
/// the user is what stands before the last `@`, the port what stands after
/// the last `:`.
pub open spec fn identity_of_name(name: Seq<char>) -> Result<(Seq<char>, u16), ResolveErrorView> {
    let at = last_index_of(name, '@');
    let colon = last_index_of(name, ':');
    if at < 0 || colon < 0 {
        Err(ResolveErrorView::BadCacheName)
    } else {
        match parse_port(name.skip(colon + 1)) {
            Some(port) => Ok((name.take(at), port)),
            None => Err(ResolveErrorView::BadCacheName),
        }
    }
}

/// The user and the port to connect with: those that the name of the session
/// cache artifact in use holds, else those in effect.
pub open spec fn connection_data(
    args: &ConnectionArgs,
    config: &Config,
    cache: Option<Seq<char>>,
) -> Result<(Seq<char>, u16), ResolveErrorView> {
    match cache {
        Some(path) => identity_of_name(file_name(path)),
        None => Ok((effective_user(args, config), effective_port(args, config))),
    }
}

/// The first `k` of `files` do not belong to `user`, and the one at `k` does
/// unless `k` is their number: then `k` is what `first_of_user` names.
pub proof fn lemma_first_of_user_at(files: Seq<Seq<char>>, user: Seq<char>, k: int)
    requires
        0 <= k <= files.len(),
        forall|i: int| 0 <= i < k ==> !belongs_to(files[i], user),
        k == files.len() || belongs_to(files[k], user),
    ensures
        first_of_user(files, user) == k,
    decreases k,
{
    if k > 0 {
        let rest = files.drop_first();
        assert forall|i: int| 0 <= i < k - 1 implies !belongs_to(rest[i], user) by {
            assert(rest[i] == files[i + 1]);
        }
        lemma_first_of_user_at(rest, user, k - 1);
    }
}

/// The login user in effect.
pub fn login_user(args: &ConnectionArgs, config: &Config) -> (r: String)
    ensures
        r@ == effective_user(args, config),
{
    match &args.login_name {
        Some(user) => user.clone(),
        None => config.default_login_user.clone(),
    }
}

/// The port in effect.
pub fn login_port(args: &ConnectionArgs, config: &Config) -> (r: u16)
    ensures
        r == effective_port(args, config),
{
    match args.port {
        Some(port) => port,
        None => config.default_login_port,
    }
}

/// Path of the session cache artifact of exactly the login in effect.
pub fn exact_cache_path(args: &ConnectionArgs, config: &Config, dirs: &ConfigDirs) -> (r: String)
    ensures
        r@ == exact_cache_file(args, config, dirs),
{
    let user = login_user(args, config);
    dirs.cache_file(user.as_str(), args.remote.as_str(), login_port(args, config))
}

/// The pattern of the session cache artifacts that may stand in for the
/// exact one.
pub fn cache_glob(args: &ConnectionArgs, config: &Config, dirs: &ConfigDirs) -> (r: String)
    ensures
        r@ == cache_pattern(args, config, dirs),
{
    proof {
        reveal_strlit("*");
        reveal_strlit("@");
        reveal_strlit(":");
        reveal_strlit("/");
    }
    let mut r = dirs.state.clone();
    r.append("/");
    match &args.login_name {
        Some(user) => r.append(user.as_str()),
        None => r.append("*"),
    }
    r.append("@");
    r.append(args.remote.as_str());
    r.append(":");
    match args.port {
        Some(port) => {
            let digits = decimal_text(port as u32);
            r.append(digits.as_str());
        },
        None => r.append("*"),
    }
    proof {
        assert("*"@ =~= seq!['*']);
        assert("@"@ =~= seq!['@']);
        assert(":"@ =~= seq![':']);
        assert("/"@ =~= seq!['/']);
        assert(r@ =~= cache_pattern(args, config, dirs));
    }
    r
}

/// The session cache artifact that answers for the login in effect.
///
/// The artifact of exactly that login wins where it exists, whatever else
/// matches. Else the first match that belongs to the user in effect is
/// taken, else the first match; with no match the login is not cached.
pub fn get_cached_file(
    args: &ConnectionArgs,
    config: &Config,
    dirs: &ConfigDirs,
    exact_found: bool,
    matches: &Vec<String>,
) -> (r: Result<String, ResolveError>)
    ensures
        view_result(r) == cached_file(args, config, dirs, exact_found, matches.deep_view()),
        exact_found ==> view_result(r) == Ok::<Seq<char>, ResolveErrorView>(
            exact_cache_file(args, config, dirs),
        ),
        !exact_found && matches.len() == 0 ==> r == Err::<String, ResolveError>(
            ResolveError::NotCached,
        ),
        !exact_found && matches.len() > 0 ==> r is Ok && matches.deep_view().contains(
            r->Ok_0@,
        ),
        !exact_found && (exists|i: int|
            0 <= i < matches.len() && belongs_to(
                #[trigger] matches.deep_view()[i],
                effective_user(args, config),
            )) ==> r is Ok && belongs_to(r->Ok_0@, effective_user(args, config)),
{
    if exact_found {
        return Ok(exact_cache_path(args, config, dirs));
    }
    if matches.len() == 0 {
        return Err(ResolveError::NotCached);
    }
    proof {
        reveal_strlit("@");
    }
    let ghost files = matches.deep_view();
    let ghost user = effective_user(args, config);
    let mut prefix = login_user(args, config);
    prefix.append("@");
    proof {
        assert(prefix@ =~= user + seq!['@']);
    }
    let mut i: usize = 0;
    while i < matches.len()
        invariant
            i <= matches.len(),
            !exact_found,
            matches.len() > 0,
            files == matches.deep_view(),
            user == effective_user(args, config),
            prefix@ == user + seq!['@'],
            forall|j: int| 0 <= j < i ==> !belongs_to(files[j], user),
        decreases matches.len() - i,
    {
        let name = tail_after(matches[i].as_str(), '/');
        proof {
            assert(files[i as int] == matches@[i as int]@);
        }
        if starts_with(name.as_str(), prefix.as_str()) {
            proof {
                lemma_first_of_user_at(files, user, i as int);
            }
            return Ok(matches[i].clone());
        }
        i = i + 1;
    }
    proof {
        lemma_first_of_user_at(files, user, files.len() as int);
        assert(files[0] == matches@[0]@);
    }
    Ok(matches[0].clone())
}

/// Where the password of the login in effect comes from.
///
/// A resolved session cache artifact is decrypted. Without one, a request for
/// the cache only fails, and asks nobody; else the persistent credential
/// artifact of the user in effect is decrypted where it exists, and the user
/// is asked where it does not.
pub fn get_password(
    args: &ConnectionArgs,
    config: &Config,
    dirs: &ConfigDirs,
    cache: Option<&String>,
    credentials_found: bool,
) -> (r: Result<PasswordSource, ResolveError>)
    ensures
        view_result(r) == password_source(
            args,
            config,
            dirs,
            match cache {
                Some(path) => Some(path@),
                None => None,
            },
            credentials_found,
        ),
        args.cache && cache is None ==> r == Err::<PasswordSource, ResolveError>(
            ResolveError::NotCached,
        ),
{
    match cache {
        Some(path) => Ok(PasswordSource::Artifact(path.clone())),
        None => {
            if args.cache {
                Err(ResolveError::NotCached)
            } else if credentials_found {
                let user = login_user(args, config);
                Ok(PasswordSource::Artifact(dirs.credentials_file(user.as_str())))
            } else {
                Ok(PasswordSource::Prompt)
            }
        },
    }
}

/// The user and the port that the name of a session cache artifact holds.
pub fn identity_from_name(name: &str) -> (r: Result<(String, u16), ResolveError>)
    ensures
        view_result(r) == identity_of_name(name@),
{
    let v = chars_of(name);
    let at = match find_last(&v, '@') {
        Some(i) => i,
        None => {
            return Err(ResolveError::BadCacheName);
        },
    };
    let colon = match find_last(&v, ':') {
        Some(i) => i,
        None => {
            return Err(ResolveError::BadCacheName);
        },
    };
    let digits = name.substring_char(colon + 1, v.len());
    proof {
        assert(name@.skip(colon + 1) =~= name@.subrange(colon + 1, name@.len() as int));
        assert(name@.take(at as int) =~= name@.subrange(0, at as int));
    }
    match port_of(digits) {
        Some(port) => Ok((name.substring_char(0, at).to_string(), port)),
        None => Err(ResolveError::BadCacheName),
    }
}

/// The user and the port to connect with.
///
/// With a session cache artifact in use they are read from its file name, so
/// that an artifact found by pattern sets the identity; without one they are
/// those in effect.
pub fn get_connection_data(args: &ConnectionArgs, config: &Config, cache: Option<&String>) -> (r:
    Result<(String, u16), ResolveError>)
    ensures
        view_result(r) == connection_data(
            args,
            config,
            match cache {
                Some(path) => Some(path@),
                None => None,
            },
        ),
{
    match cache {
        Some(path) => {
            let name = tail_after(path.as_str(), '/');
            identity_from_name(name.as_str())
        },
        None => Ok((login_user(args, config), login_port(args, config))),
    }
}

/// The user whose credentials are registered: the one given, else the one
/// typed in, without the whitespace around it.
pub open spec fn credentials_user(user: Option<Seq<char>>, typed: Seq<char>) -> Seq<char> {
    match user {
        Some(name) => name,
        None => trim(typed),
    }
}

/// The user whose credentials are registered and the path of the persistent
/// credential artifact to edit for it. `typed` is what was entered when the
/// user was asked for; it is not read where `user` is given.
pub fn register_credentials(user: Option<String>, typed: &str, dirs: &ConfigDirs) -> (r: (
    String,
    String,
))
    ensures
        r.0@ == credentials_user(
            match user {
                Some(name) => Some(name@),
                None => None,
            },
            typed@,
        ),
        r.1@ == dirs.spec_credentials_file(r.0@),
{
    let name = match user {
        Some(name) => name,
        None => trimmed(typed),
    };
    let file = dirs.credentials_file(name.as_str());
    (name, file)
}

/// The name of a session cache artifact gives back the user and the port it
/// was made from, where the remote holds no `@`.
pub proof fn lemma_cache_name_round_trip(user: Seq<char>, remote: Seq<char>, port: u16)
    requires
        !remote.contains('@'),
    ensures
        identity_of_name(cache_name(user, remote, port)) == Ok::<
            (Seq<char>, u16),
            ResolveErrorView,
        >((user, port)),
{
    let digits = decimal(port as nat);
    let name = cache_name(user, remote, port);
    let at = user.len() as int;
    let colon = at + 1 + remote.len();
    lemma_decimal_number(port as nat);
    lemma_parse_port_decimal(port);
    assert(name.len() == colon + 1 + digits.len());
    assert(name[at] == '@');
    assert(name[colon] == ':');
    assert forall|i: int| colon < i < name.len() implies name[i] != ':' && name[i] != '@' by {
        assert(name[i] == digits[i - colon - 1]);
        assert(is_digit(digits[i - colon - 1]));
    }
    assert forall|i: int| at < i < name.len() implies name[i] != '@' by {
        if i < colon {
            assert(name[i] == remote[i - at - 1]);
            assert(remote.contains(remote[i - at - 1]));
        }
    }
    lemma_last_index_of_at(name, '@', at);
    lemma_last_index_of_at(name, ':', colon);
    assert(name.skip(colon + 1) =~= digits);
    assert(name.take(at) =~= user);
}

/// The identity read back from the exact session cache artifact of a login
/// is that login, where the remote holds no `@` and neither the user nor the
/// remote holds a `/`.
pub proof fn lemma_exact_cache_identity(
    args: &ConnectionArgs,
    config: &Config,
    dirs: &ConfigDirs,
)
    requires
        !args.remote@.contains('@'),
        !args.remote@.contains('/'),
        !effective_user(args, config).contains('/'),
    ensures
        connection_data(args, config, Some(exact_cache_file(args, config, dirs))) == Ok::<
            (Seq<char>, u16),
            ResolveErrorView,
        >((effective_user(args, config), effective_port(args, config))),
{
    let user = effective_user(args, config);
    let port = effective_port(args, config);
    let remote = args.remote@;
    let digits = decimal(port as nat);
    let name = cache_name(user, remote, port);
    lemma_decimal_number(port as nat);
    assert forall|i: int| 0 <= i < name.len() implies name[i] != '/' by {
        let at = user.len() as int;
        let colon = at + 1 + remote.len();
        if i < at {
            assert(name[i] == user[i]);
            assert(user.contains(user[i]));
        } else if i == at {
        } else if i < colon {
            assert(name[i] == remote[i - at - 1]);
            assert(remote.contains(remote[i - at - 1]));
        } else if i == colon {
        } else {
            assert(name[i] == digits[i - colon - 1]);
            assert(is_digit(digits[i - colon - 1]));
        }
    }
    assert(!name.contains('/'));
    lemma_file_name_of_join(dirs.state@, name);
    lemma_cache_name_round_trip(user, remote, port);
}

/// Two logins share a session cache artifact only if they are the same
/// login, where the remotes hold no `@`: the names do not collide.
pub proof fn lemma_cache_name_injective(
    user1: Seq<char>,
    remote1: Seq<char>,
    port1: u16,
    user2: Seq<char>,
    remote2: Seq<char>,
    port2: u16,
)
    requires
        !remote1.contains('@'),
        !remote2.contains('@'),
        cache_name(user1, remote1, port1) == cache_name(user2, remote2, port2),
    ensures
        user1 == user2,
        remote1 == remote2,
        port1 == port2,
{
    lemma_cache_name_round_trip(user1, remote1, port1);
    lemma_cache_name_round_trip(user2, remote2, port2);
    let name = cache_name(user1, remote1, port1);
    let digits = decimal(port1 as nat);
    let from = user1.len() as int + 1;
    assert(name.len() == from + remote1.len() + 1 + digits.len());
    assert(name.len() == from + remote2.len() + 1 + digits.len());
    assert(name.subrange(from, from + remote1.len()) =~= remote1);
    assert(name.subrange(from, from + remote2.len()) =~= remote2);
}

} // verus!
