use clap::{Arg, ArgMatches};
use oxidoc::cli::{ArgumentError, Arguments, Cli, Command, DeleteArgs, GetArgs, InsertArgs};
use oxidoc::command::{
    CliCommand, CreateCollectionCommandArgs, DeleteCommandArgs, GetCommandArgs, InsertCommandArgs,
};

fn option(long: &'static str, short: char) -> Arg {
    Arg::new(long).long(long).short(short).required(true)
}

fn place(name: &'static str) -> clap::Command {
    clap::Command::new(name)
        .arg(option("collection", 'c'))
        .arg(option("key", 'k'))
}

fn shell_grammar() -> clap::Command {
    clap::Command::new("prog")
        .subcommand_required(true)
        .subcommand(clap::Command::new("start"))
        .subcommand(clap::Command::new("stop"))
        .subcommand(clap::Command::new("status"))
        .subcommand(place("insert").arg(option("value", 'v')))
        .subcommand(place("get"))
        .subcommand(place("delete"))
}

fn store_grammar() -> clap::Command {
    clap::Command::new("prog")
        .subcommand_required(true)
        .subcommand(clap::Command::new("status"))
        .subcommand(place("insert").arg(option("value", 'v')))
        .subcommand(place("get"))
        .subcommand(place("delete"))
        .subcommand(clap::Command::new("create-collection").arg(option("name", 'n')))
        .subcommand(clap::Command::new("delete-collection").arg(option("name", 'n')))
}

fn given(matches: &ArgMatches, id: &str) -> Option<String> {
    matches.try_get_one::<String>(id).ok().flatten().cloned()
}

fn read(grammar: clap::Command, args: &[&str]) -> Arguments {
    let matches = grammar.get_matches_from(args);
    let (subcommand, options) = matches.subcommand().expect("a subcommand is required");
    Arguments {
        subcommand: subcommand.to_string(),
        collection: given(options, "collection"),
        key: given(options, "key"),
        value: given(options, "value"),
        name: given(options, "name"),
    }
}

fn parse_cli(args: &[&str]) -> Cli {
    Cli { command: Command::from_arguments(read(shell_grammar(), args)).unwrap() }
}

fn parse_command(args: &[&str]) -> CliCommand {
    CliCommand::from_arguments(read(store_grammar(), args)).unwrap()
}

fn arguments(subcommand: &str, options: [Option<&str>; 4]) -> Arguments {
    let [collection, key, value, name] = options.map(|text| text.map(str::to_string));
    Arguments { subcommand: subcommand.to_string(), collection, key, value, name }
}

#[test]
fn parses_start_command() {
    let cli = parse_cli(&["prog", "start"]);
    assert_eq!(cli.command, Command::Start);
}

#[test]
fn cli_parses_insert_command_with_all_args() {
    let cli = parse_cli(&["prog", "insert", "-c", "mycoll", "-k", "mykey", "-v", "myval"]);
    assert_eq!(
        cli.command,
        Command::Insert(InsertArgs {
            collection: "mycoll".to_string(),
            key: "mykey".to_string(),
            value: "myval".to_string(),
        })
    );
}

#[test]
fn cli_parses_get_command_with_args() {
    let cli = parse_cli(&["prog", "get", "-c", "mycoll", "-k", "mykey"]);
    assert_eq!(
        cli.command,
        Command::Get(GetArgs { collection: "mycoll".to_string(), key: "mykey".to_string() })
    );
}

#[test]
fn cli_parses_delete_command_with_args() {
    let cli = parse_cli(&["prog", "delete", "-c", "mycoll", "-k", "mykey"]);
    assert_eq!(
        cli.command,
        Command::Delete(DeleteArgs { collection: "mycoll".to_string(), key: "mykey".to_string() })
    );
}

#[test]
fn cli_parses_status_command() {
    let cli = parse_cli(&["prog", "status"]);
    assert_eq!(cli.command, Command::Status);
}

#[test]
fn parses_stop_command() {
    let cli = parse_cli(&["prog", "stop"]);
    assert_eq!(cli.command, Command::Stop);
}

#[test]
fn commands_parses_insert_command_with_all_args() {
    let command = parse_command(&["prog", "insert", "-c", "mycoll", "-k", "mykey", "-v", "myval"]);
    assert_eq!(
        command,
        CliCommand::Insert(InsertCommandArgs {
            collection: "mycoll".to_string(),
            key: "mykey".to_string(),
            value: "myval".to_string(),
        })
    );
}

#[test]
fn commands_parses_get_command_with_args() {
    let command = parse_command(&["prog", "get", "-c", "mycoll", "-k", "mykey"]);
    assert_eq!(
        command,
        CliCommand::Get(GetCommandArgs {
            collection: "mycoll".to_string(),
            key: "mykey".to_string(),
        })
    );
}

#[test]
fn commands_parses_delete_command_with_args() {
    let command = parse_command(&["prog", "delete", "-c", "mycoll", "-k", "mykey"]);
    assert_eq!(
        command,
        CliCommand::Delete(DeleteCommandArgs {
            collection: "mycoll".to_string(),
            key: "mykey".to_string(),
        })
    );
}

#[test]
fn commands_parses_status_command() {
    let command = parse_command(&["prog", "status"]);
    assert_eq!(command, CliCommand::Status);
}

#[test]
fn parses_collection_commands_with_long_options() {
    let created = parse_command(&["prog", "create-collection", "--name", "users"]);
    assert_eq!(
        created,
        CliCommand::CreateCollection(CreateCollectionCommandArgs { name: "users".to_string() })
    );
    let deleted = parse_command(&["prog", "delete-collection", "-n", "users"]);
    assert_eq!(
        deleted,
        CliCommand::DeleteCollection(CreateCollectionCommandArgs { name: "users".to_string() })
    );
}

#[test]
fn unknown_subcommand_is_refused() {
    let none = [None, None, None, None];
    assert_eq!(
        Command::from_arguments(arguments("create-collection", none)),
        Err(ArgumentError::UnknownSubcommand)
    );
    assert_eq!(
        CliCommand::from_arguments(arguments("start", none)),
        Err(ArgumentError::UnknownSubcommand)
    );
    assert_eq!(
        CliCommand::from_arguments(arguments("", none)),
        Err(ArgumentError::UnknownSubcommand)
    );
}

#[test]
fn missing_option_is_refused() {
    let no_value = [Some("c"), Some("k"), None, None];
    assert_eq!(
        Command::from_arguments(arguments("insert", no_value)),
        Err(ArgumentError::MissingOption)
    );
    assert_eq!(
        CliCommand::from_arguments(arguments("insert", no_value)),
        Err(ArgumentError::MissingOption)
    );
    assert_eq!(
        CliCommand::from_arguments(arguments("create-collection", [None, None, None, None])),
        Err(ArgumentError::MissingOption)
    );
}

#[test]
fn unexpected_option_is_refused() {
    let with_name = [Some("c"), Some("k"), None, Some("n")];
    assert_eq!(
        CliCommand::from_arguments(arguments("get", with_name)),
        Err(ArgumentError::UnexpectedOption)
    );
    assert_eq!(
        Command::from_arguments(arguments("status", [Some("c"), None, None, None])),
        Err(ArgumentError::UnexpectedOption)
    );
}

#[test]
fn missing_option_is_reported_before_unexpected_one() {
    let mixed = [Some("c"), None, None, Some("n")];
    assert_eq!(
        CliCommand::from_arguments(arguments("get", mixed)),
        Err(ArgumentError::MissingOption)
    );
}
