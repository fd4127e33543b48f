//! The command line as plain data, and the rule that makes `ssh` the
//! subcommand when none is named.

use crate::text::same_text;
use vstd::prelude::*;

verus! {

/// A parsed command line.
#[derive(Debug, Clone, PartialEq, Eq)]
pub struct Parser {
    pub command: CommandEnum,
}

/// The subcommands.
#[derive(Debug, Clone, PartialEq, Eq)]
pub enum CommandEnum {
    /// Open an SSH connection to the given remote; the default.
    Ssh(ConnectionArgs),
    /// Open an SFTP connection to the given remote.
    Sftp(ConnectionArgs),
    /// Execute a script or commands on the listed remotes.
    Exec(ExecuteArgs),
    /// Send files to the listed remotes.
    Put(FileArgs),
    /// Get files from the listed remotes.
    Get(FileArgs),
    /// Run a playbook with password detection.
    Book(PlaybookArgs),
    /// Configure the application.
    Config(ConfigEnum),
}

/// What a connection to one remote was asked to do.
#[derive(Debug, Clone, PartialEq, Eq, Default)]
pub struct ConnectionArgs {
    /// Remote to connect to.
    pub remote: String,
    /// Login user, where it overrides the configured one.
    pub login_name: Option<String>,
    /// Port, where it overrides the configured one.
    pub port: Option<u16>,
    /// Write the password to the session cache even if one was cached.
    pub ask_pass: bool,
    /// Use the session cache only: never fall back to another source.
    pub cache: bool,
    /// Pass over whatever the session cache holds.
    pub force: bool,
    /// Resolve the credentials and stop before connecting.
    pub dry_run: bool,
    /// Print the password and stop before connecting.
    pub print: bool,
    pub quiet: bool,
    pub verbose: bool,
}

/// What to execute on a list of remotes.
#[derive(Debug, Clone, PartialEq, Eq, Default)]
pub struct ExecuteArgs {
    /// Inventory path, or a comma separated list of hosts.
    pub inventory: String,
    /// Path of a script to execute on the remote.
    pub execute: Option<String>,
    /// Arguments handed to that script.
    pub args: Option<Vec<String>>,
    /// Commands to send to the remote.
    pub commands: Option<Vec<String>>,
    pub dry_run: bool,
    pub quiet: bool,
    pub verbose: bool,
}

/// Which files to move to or from a list of remotes.
#[derive(Debug, Clone, PartialEq, Eq, Default)]
pub struct FileArgs {
    /// Inventory path, or a comma separated list of hosts.
    pub inventory: String,
    /// Paths of the files.
    pub files: Vec<String>,
    pub quiet: bool,
    pub verbose: bool,
}

/// A playbook run.
#[derive(Debug, Clone, PartialEq, Eq, Default)]
pub struct PlaybookArgs {
    /// Inventory path, or a comma separated list of hosts.
    pub inventory: String,
    /// Arguments handed through to the playbook runner.
    pub ansible_args: Vec<String>,
}

/// The configuration subcommands.
#[derive(Debug, Clone, PartialEq, Eq, Default)]
pub enum ConfigEnum {
    /// Create the configuration, the passphrase and the first credentials.
    #[default]
    Init,
    /// Create or change the credentials of a user.
    Credentials { user: Option<String> },
    /// Set or change the passphrase.
    Passphrase,
    /// Edit an encrypted file, or the configuration if no path is given.
    Edit { file: Option<String> },
    /// Write the base configuration over the stored one.
    Reset,
}

/// The subcommand's name on the command line.
pub open spec fn command_name(command: CommandEnum) -> Seq<char> {
    match command {
        CommandEnum::Ssh(_) => "ssh"@,
        CommandEnum::Sftp(_) => "sftp"@,
        CommandEnum::Exec(_) => "exec"@,
        CommandEnum::Put(_) => "put"@,
        CommandEnum::Get(_) => "get"@,
        CommandEnum::Book(_) => "book"@,
        CommandEnum::Config(_) => "config"@,
    }
}

/// Whether `word` in first position names a subcommand or asks for help or
/// for the version.
pub open spec fn is_known_first_word(word: Seq<char>) -> bool {
    ||| word == "help"@
    ||| word == "-h"@
    ||| word == "--help"@
    ||| word == "-V"@
    ||| word == "--version"@
    ||| word == "ssh"@
    ||| word == "sftp"@
    ||| word == "exec"@
    ||| word == "put"@
    ||| word == "get"@
    ||| word == "book"@
    ||| word == "config"@
}

/// The arguments with `ssh` put in first position where the word that stands
/// there is not a known one. The program's own name, at index 0, stays.
pub open spec fn with_default_subcommand(args: Seq<Seq<char>>) -> Seq<Seq<char>> {
    if args.len() > 1 && !is_known_first_word(args[1]) {
        args.insert(1, "ssh"@)
    } else {
        args
    }
}

impl CommandEnum {
    /// The subcommand's name on the command line.
    pub fn name(&self) -> (r: String)
        ensures
            r@ == command_name(*self),
    {
        match self {
            CommandEnum::Ssh(_) => "ssh".to_string(),
            CommandEnum::Sftp(_) => "sftp".to_string(),
            CommandEnum::Exec(_) => "exec".to_string(),
            CommandEnum::Put(_) => "put".to_string(),
            CommandEnum::Get(_) => "get".to_string(),
            CommandEnum::Book(_) => "book".to_string(),
            CommandEnum::Config(_) => "config".to_string(),
        }
    }
}

/// Whether `word` in first position names a subcommand or asks for help or
/// for the version.
pub fn known_first_word(word: &str) -> (b: bool)
    ensures
        b == is_known_first_word(word@),
{
    same_text(word, "help") || same_text(word, "-h") || same_text(word, "--help") || same_text(
        word,
        "-V",
    ) || same_text(word, "--version") || same_text(word, "ssh") || same_text(word, "sftp")
        || same_text(word, "exec") || same_text(word, "put") || same_text(word, "get")
        || same_text(word, "book") || same_text(word, "config")
}

/// Puts `ssh` in first position where the word that stands there is not a
/// known one, so that a bare remote is a connection request.
pub fn default_subcommand(args: Vec<String>) -> (r: Vec<String>)
    ensures
        r.deep_view() == with_default_subcommand(args.deep_view()),
{
    let mut r = args;
    if r.len() > 1 && !known_first_word(r[1].as_str()) {
        let ghost before = r.deep_view();
        proof {
            assert(before[1] == r@[1]@);
        }
        r.insert(1, "ssh".to_string());
        proof {
            assert(r.deep_view() =~= before.insert(1, "ssh"@));
        }
    } else {
        proof {
            assert(r.len() > 1 ==> r.deep_view()[1] == r@[1]@);
        }
    }
    r
}

} // verus!
