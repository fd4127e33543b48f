//! The persisted settings, the directories that hold the artifacts, and the
//! names of the artifacts in them.

use crate::text::{after_last, decimal, decimal_text, lemma_last_index_of_at, same_text};
use vstd::prelude::*;
use vstd::string::StringExecFns;

verus! {

/// The settings that persist between runs.
#[derive(Debug, Clone, PartialEq, Eq)]
pub struct Config {
    /// For a login user, the command that starts its shell. No user occurs
    /// twice.
    pub login_command: Vec<(String, String)>,
    /// The login user where none is given.
    pub default_login_user: String,
    /// The port where none is given.
    pub default_login_port: u16,
    /// Options handed to the transport.
    pub ssh_options: Vec<String>,
    /// How long a cached password is meant to live, as a duration text.
    pub cached_remote_password_expire_time: String,
}

/// What a `Config` holds, as mathematical values.
pub struct ConfigView {
    pub login_command: Seq<(Seq<char>, Seq<char>)>,
    pub default_login_user: Seq<char>,
    pub default_login_port: u16,
    pub ssh_options: Seq<Seq<char>>,
    pub cached_remote_password_expire_time: Seq<char>,
}

impl View for Config {
    type V = ConfigView;

    open spec fn view(&self) -> ConfigView {
        ConfigView {
            login_command: self.login_command.deep_view(),
            default_login_user: self.default_login_user@,
            default_login_port: self.default_login_port,
            ssh_options: self.ssh_options.deep_view(),
            cached_remote_password_expire_time: self.cached_remote_password_expire_time@,
        }
    }
}

/// The base configuration.
pub open spec fn base_config() -> ConfigView {
    ConfigView {
        login_command: seq![("root"@, "$SHELL -l"@)],
        default_login_user: "root"@,
        default_login_port: 22,
        ssh_options: seq![
            "BatchMode=no"@,
            "Compression=yes"@,
            "ConnectionAttempts=1"@,
            "ConnectTimeout=10"@,
            "GlobalKnownHostsFile=/dev/null"@,
            "LogLevel=info"@,
            "NumberOfPasswordPrompts=1"@,
            "PasswordAuthentication=yes"@,
            "PreferredAuthentications=password"@,
            "StrictHostKeyChecking=no"@,
            "UserKnownHostsFile=/dev/null"@,
        ],
        cached_remote_password_expire_time: "12h"@,
    }
}

impl ConfigView {
    /// No login user has two commands.
    pub open spec fn wf(self) -> bool {
        forall|i: int, j: int|
            0 <= i < j < self.login_command.len() ==> self.login_command[i].0
                != self.login_command[j].0
    }
}

impl Config {
    /// No login user has two commands.
    pub open spec fn wf(&self) -> bool {
        self@.wf()
    }

    /// Whether no login user has two commands.
    pub fn is_valid(&self) -> (b: bool)
        ensures
            b == self.wf(),
    {
        let ghost users = self@.login_command;
        let n = self.login_command.len();
        let mut j: usize = 0;
        while j < n
            invariant
                j <= n,
                n == self.login_command.len(),
                users == self@.login_command,
                forall|a: int, b: int| 0 <= a < b < j ==> users[a].0 != users[b].0,
            decreases n - j,
        {
            let mut i: usize = 0;
            while i < j
                invariant
                    i <= j < n,
                    n == self.login_command.len(),
                    users == self@.login_command,
                    forall|a: int| 0 <= a < i ==> users[a].0 != users[j as int].0,
                decreases j - i,
            {
                proof {
                    assert(users[i as int].0 == self.login_command@[i as int].0@);
                    assert(users[j as int].0 == self.login_command@[j as int].0@);
                }
                if same_text(self.login_command[i].0.as_str(), self.login_command[j].0.as_str()) {
                    return false;
                }
                i = i + 1;
            }
            j = j + 1;
        }
        true
    }

    /// The stored configuration where one could be read and is valid, the
    /// base configuration where none is stored or what is stored cannot be
    /// used.
    pub fn new(stored: Option<Config>) -> (r: Config)
        ensures
            r.wf(),
            r@ == match stored {
                Some(c) => if c.wf() {
                    c@
                } else {
                    base_config()
                },
                None => base_config(),
            },
    {
        match stored {
            Some(c) => {
                if c.is_valid() {
                    c
                } else {
                    Config::default()
                }
            },
            None => Config::default(),
        }
    }

    /// The default login user where it is not the base configuration's: the
    /// user whose credentials are registered when the application is set up.
    /// With the base configuration's user, that user is asked for.
    pub fn configured_user(&self) -> (r: Option<String>)
        ensures
            match r {
                Some(user) => user@ == self.default_login_user@ && user@
                    != base_config().default_login_user,
                None => self.default_login_user@ == base_config().default_login_user,
            },
    {
        if same_text(self.default_login_user.as_str(), "root") {
            None
        } else {
            Some(self.default_login_user.clone())
        }
    }

    /// The base configuration, to be stored in place of the present one.
    pub fn reset() -> (r: Config)
        ensures
            r.wf(),
            r@ == base_config(),
    {
        Config::default()
    }
}

impl Default for Config {
    /// The base configuration.
    fn default() -> (r: Config)
        ensures
            r.wf(),
            r@ == base_config(),
    {
        let mut login_command: Vec<(String, String)> = Vec::new();
        login_command.push(("root".to_string(), "$SHELL -l".to_string()));
        let mut ssh_options: Vec<String> = Vec::new();
        ssh_options.push("BatchMode=no".to_string());
        ssh_options.push("Compression=yes".to_string());
        ssh_options.push("ConnectionAttempts=1".to_string());
        ssh_options.push("ConnectTimeout=10".to_string());
        ssh_options.push("GlobalKnownHostsFile=/dev/null".to_string());
        ssh_options.push("LogLevel=info".to_string());
        ssh_options.push("NumberOfPasswordPrompts=1".to_string());
        ssh_options.push("PasswordAuthentication=yes".to_string());
        ssh_options.push("PreferredAuthentications=password".to_string());
        ssh_options.push("StrictHostKeyChecking=no".to_string());
        ssh_options.push("UserKnownHostsFile=/dev/null".to_string());
        let r = Config {
            login_command,
            default_login_user: "root".to_string(),
            default_login_port: 22,
            ssh_options,
            cached_remote_password_expire_time: "12h".to_string(),
        };
        proof {
            assert(r@.login_command =~= base_config().login_command);
            assert(r@.ssh_options =~= base_config().ssh_options);
        }
        r
    }
}

/// The path of `name` in the directory `dir`.
pub open spec fn path_join(dir: Seq<char>, name: Seq<char>) -> Seq<char> {
    dir + seq!['/'] + name
}

/// The last component of `path`: what follows its last `/`.
pub open spec fn file_name(path: Seq<char>) -> Seq<char> {
    after_last(path, '/')
}

/// The name of the session cache artifact of a login: the user, `@`, the
/// remote, `:`, and the port in base ten.
pub open spec fn cache_name(user: Seq<char>, remote: Seq<char>, port: u16) -> Seq<char> {
    user + seq!['@'] + remote + seq![':'] + decimal(port as nat)
}

/// The last component of a path made by `path_join` is the name that was
/// joined, where that name holds no `/`.
pub proof fn lemma_file_name_of_join(dir: Seq<char>, name: Seq<char>)
    requires
        !name.contains('/'),
    ensures
        file_name(path_join(dir, name)) == name,
{
    let path = path_join(dir, name);
    let k = dir.len() as int;
    assert(path[k] == '/');
    assert forall|i: int| k < i < path.len() implies path[i] != '/' by {
        assert(path[i] == name[i - k - 1]);
        assert(name.contains(name[i - k - 1]));
    }
    lemma_last_index_of_at(path, '/', k);
    assert(path.skip(k + 1) =~= name);
}

/// The path of `name` in the directory `dir`.
pub fn join(dir: &str, name: &str) -> (r: String)
    ensures
        r@ == path_join(dir@, name@),
{
    proof {
        reveal_strlit("/");
    }
    let mut r = dir.to_string();
    r.append("/");
    r.append(name);
    proof {
        assert("/"@ =~= seq!['/']);
    }
    r
}

/// The name of the session cache artifact of a login.
pub fn cache_file_name(user: &str, remote: &str, port: u16) -> (r: String)
    ensures
        r@ == cache_name(user@, remote@, port),
{
    proof {
        reveal_strlit("@");
        reveal_strlit(":");
    }
    let digits = decimal_text(port as u32);
    let mut r = user.to_string();
    r.append("@");
    r.append(remote);
    r.append(":");
    r.append(digits.as_str());
    proof {
        assert("@"@ =~= seq!['@']);
        assert(":"@ =~= seq![':']);
    }
    r
}

/// The directories that hold the artifacts.
#[derive(Debug, Clone, PartialEq, Eq)]
pub struct ConfigDirs {
    /// Holds the configuration file.
    pub config: String,
    /// Holds the passphrase artifact and the persistent credentials.
    pub data: String,
    /// Holds the session cache.
    pub state: String,
    pub cache: String,
    pub document: String,
    pub download: String,
}

impl ConfigDirs {
    /// The directories, with the state directory below the local data
    /// directory where the platform names none.
    pub fn new(
        config: String,
        data: String,
        data_local: String,
        state: Option<String>,
        cache: String,
        document: String,
        download: String,
    ) -> (r: ConfigDirs)
        ensures
            r.config@ == config@,
            r.data@ == data@,
            r.state@ == match state {
                Some(dir) => dir@,
                None => path_join(data_local@, "state"@),
            },
            r.cache@ == cache@,
            r.document@ == document@,
            r.download@ == download@,
    {
        let state = match state {
            Some(dir) => dir,
            None => join(data_local.as_str(), "state"),
        };
        ConfigDirs { config, data, state, cache, document, download }
    }

    /// Path of the configuration file.
    pub open spec fn spec_config_file(&self) -> Seq<char> {
        path_join(self.config@, "config.toml"@)
    }

    /// Path of the passphrase artifact.
    pub open spec fn spec_passphrase_file(&self) -> Seq<char> {
        path_join(self.data@, "passphrase.gpg"@)
    }

    /// Path of the directory of the persistent credentials.
    pub open spec fn spec_credentials_dir(&self) -> Seq<char> {
        path_join(self.data@, "credentials"@)
    }

    /// Path of the persistent credential artifact of `user`.
    pub open spec fn spec_credentials_file(&self, user: Seq<char>) -> Seq<char> {
        path_join(self.spec_credentials_dir(), user)
    }

    /// Path of the session cache artifact of a login.
    pub open spec fn spec_cache_file(&self, user: Seq<char>, remote: Seq<char>, port: u16) -> Seq<
        char,
    > {
        path_join(self.state@, cache_name(user, remote, port))
    }

    /// Path of the configuration file.
    pub fn config_file(&self) -> (r: String)
        ensures
            r@ == self.spec_config_file(),
    {
        join(self.config.as_str(), "config.toml")
    }

    /// Path of the passphrase artifact.
    pub fn passphrase_file(&self) -> (r: String)
        ensures
            r@ == self.spec_passphrase_file(),
    {
        join(self.data.as_str(), "passphrase.gpg")
    }

    /// Path of the directory of the persistent credentials.
    pub fn credentials_dir(&self) -> (r: String)
        ensures
            r@ == self.spec_credentials_dir(),
    {
        join(self.data.as_str(), "credentials")
    }

    /// Path of the persistent credential artifact of `user`.
    pub fn credentials_file(&self, user: &str) -> (r: String)
        ensures
            r@ == self.spec_credentials_file(user@),
    {
        let dir = self.credentials_dir();
        join(dir.as_str(), user)
    }

    /// Path of the session cache artifact of a login.
    pub fn cache_file(&self, user: &str, remote: &str, port: u16) -> (r: String)
        ensures
            r@ == self.spec_cache_file(user@, remote@, port),
    {
        let name = cache_file_name(user, remote, port);
        join(self.state.as_str(), name.as_str())
    }
}

} // verus!
