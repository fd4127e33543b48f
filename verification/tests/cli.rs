use asd::cli::{
    default_subcommand, known_first_word, CommandEnum, ConfigEnum, ConnectionArgs, ExecuteArgs,
    FileArgs, Parser, PlaybookArgs,
};

fn words(list: &[&str]) -> Vec<String> {
    list.iter().map(|w| w.to_string()).collect()
}

#[test]
fn a_bare_remote_means_ssh() {
    assert_eq!(default_subcommand(words(&["asd", "host1"])), words(&["asd", "ssh", "host1"]));
    assert_eq!(
        default_subcommand(words(&["asd", "host1", "-l", "alice", "--cache"])),
        words(&["asd", "ssh", "host1", "-l", "alice", "--cache"])
    );
}

#[test]
fn a_flag_that_is_not_known_means_ssh() {
    assert_eq!(default_subcommand(words(&["asd", "-k", "host1"])), words(&["asd", "ssh", "-k", "host1"]));
}

#[test]
fn a_named_subcommand_stays() {
    for name in ["ssh", "sftp", "exec", "put", "get", "book", "config"] {
        assert_eq!(default_subcommand(words(&["asd", name, "x"])), words(&["asd", name, "x"]));
    }
}

#[test]
fn help_and_version_stay() {
    for word in ["help", "-h", "--help", "-V", "--version"] {
        assert_eq!(default_subcommand(words(&["asd", word])), words(&["asd", word]));
    }
}

#[test]
fn no_argument_stays_no_argument() {
    assert_eq!(default_subcommand(words(&["asd"])), words(&["asd"]));
    assert_eq!(default_subcommand(words(&[])), words(&[]));
}

#[test]
fn subcommand_names_are_case_sensitive() {
    assert!(known_first_word("ssh"));
    assert!(!known_first_word("SSH"));
    assert!(!known_first_word("Ssh"));
    assert!(!known_first_word("-v"));
    assert!(known_first_word("-V"));
    assert!(!known_first_word(""));
    assert_eq!(default_subcommand(words(&["asd", "SSH"])), words(&["asd", "ssh", "SSH"]));
}

#[test]
fn every_subcommand_has_its_name() {
    assert_eq!(CommandEnum::Ssh(ConnectionArgs::default()).name(), "ssh");
    assert_eq!(CommandEnum::Sftp(ConnectionArgs::default()).name(), "sftp");
    assert_eq!(CommandEnum::Exec(ExecuteArgs::default()).name(), "exec");
    assert_eq!(CommandEnum::Put(FileArgs::default()).name(), "put");
    assert_eq!(CommandEnum::Get(FileArgs::default()).name(), "get");
    assert_eq!(CommandEnum::Book(PlaybookArgs::default()).name(), "book");
    assert_eq!(CommandEnum::Config(ConfigEnum::default()).name(), "config");
}

#[test]
fn every_subcommand_name_is_a_known_first_word() {
    let parser = Parser { command: CommandEnum::Config(ConfigEnum::Init) };
    assert!(known_first_word(&parser.command.name()));
    assert!(known_first_word(&CommandEnum::Book(PlaybookArgs::default()).name()));
}

#[test]
fn the_default_configuration_subcommand_is_init() {
    assert_eq!(ConfigEnum::default(), ConfigEnum::Init);
}

#[test]
fn connection_arguments_default_to_nothing_asked() {
    let args = ConnectionArgs::default();
    assert_eq!(args.remote, "");
    assert_eq!(args.login_name, None);
    assert_eq!(args.port, None);
    assert!(!args.ask_pass && !args.cache && !args.force && !args.dry_run && !args.print);
}
