//! The commands of the interactive shell.

use crate::command::{
    CliCommand, CommandView, CreateCollectionCommandArgs, DeleteCommandArgs, GetCommandArgs,
    InsertCommandArgs,
};
use vstd::prelude::*;
use vstd::string::*;

verus! {

/// What `insert` needs: where to store and what.
#[derive(Debug, PartialEq, Eq)]
pub struct InsertArgs {
    pub collection: String,
    pub key: String,
    pub value: String,
}

/// What `get` needs: where to look.
#[derive(Debug, PartialEq, Eq)]
pub struct GetArgs {
    pub collection: String,
    pub key: String,
}

/// What `delete` needs: which key to drop.
#[derive(Debug, PartialEq, Eq)]
pub struct DeleteArgs {
    pub collection: String,
    pub key: String,
}

/// A command of the shell.
#[derive(Debug, PartialEq, Eq)]
pub enum Command {
    /// Start the database.
    Start,
    /// Stop the database.
    Stop,
    /// Show the state of the database.
    Status,
    /// Store a value under a key of a collection.
    Insert(InsertArgs),
    /// Fetch the value under a key of a collection.
    Get(GetArgs),
    /// Drop a key of a collection.
    Delete(DeleteArgs),
}

/// A line of the shell, once its arguments were read.
#[derive(Debug, PartialEq, Eq)]
pub struct Cli {
    pub command: Command,
}

/// A command of the shell with its strings taken as sequences of characters.
pub enum ShellCommand {
    Start,
    Stop,
    Status,
    Insert { collection: Seq<char>, key: Seq<char>, value: Seq<char> },
    Get { collection: Seq<char>, key: Seq<char> },
    Delete { collection: Seq<char>, key: Seq<char> },
}

impl View for Command {
    type V = ShellCommand;

    open spec fn view(&self) -> ShellCommand {
        match self {
            Command::Start => ShellCommand::Start,
            Command::Stop => ShellCommand::Stop,
            Command::Status => ShellCommand::Status,
            Command::Insert(args) => ShellCommand::Insert {
                collection: args.collection@,
                key: args.key@,
                value: args.value@,
            },
            Command::Get(args) => ShellCommand::Get { collection: args.collection@, key: args.key@ },
            Command::Delete(args) => ShellCommand::Delete {
                collection: args.collection@,
                key: args.key@,
            },
        }
    }
}

/// What was read from a command line: the name of the subcommand, and the
/// value of each option that was given.
#[derive(Debug, PartialEq, Eq)]
pub struct Arguments {
    pub subcommand: String,
    pub collection: Option<String>,
    pub key: Option<String>,
    pub value: Option<String>,
    pub name: Option<String>,
}

/// Why arguments name no command.
#[derive(Debug, Clone, Copy, PartialEq, Eq, Structural)]
pub enum ArgumentError {
    /// No subcommand has this name.
    UnknownSubcommand,
    /// An option that the subcommand needs was not given.
    MissingOption,
    /// An option was given that the subcommand does not take.
    UnexpectedOption,
}

/// Arguments with their strings taken as sequences of characters.
pub struct ArgumentsView {
    pub subcommand: Seq<char>,
    pub collection: Option<Seq<char>>,
    pub key: Option<Seq<char>>,
    pub value: Option<Seq<char>>,
    pub name: Option<Seq<char>>,
}

/// The characters of an optional string.
pub open spec fn option_view(text: Option<String>) -> Option<Seq<char>> {
    match text {
        Some(text) => Some(text@),
        None => None,
    }
}

impl View for Arguments {
    type V = ArgumentsView;

    open spec fn view(&self) -> ArgumentsView {
        ArgumentsView {
            subcommand: self.subcommand@,
            collection: option_view(self.collection),
            key: option_view(self.key),
            value: option_view(self.value),
            name: option_view(self.name),
        }
    }
}

/// Which options were given, and which a subcommand takes: the collection,
/// the key, the value and the name, in this order.
pub struct Options {
    pub collection: bool,
    pub key: bool,
    pub value: bool,
    pub name: bool,
}

impl ArgumentsView {
    /// Which options were given.
    pub open spec fn given(self) -> Options {
        Options {
            collection: self.collection is Some,
            key: self.key is Some,
            value: self.value is Some,
            name: self.name is Some,
        }
    }
}

/// What comes of options that were `given` to a subcommand that takes
/// `taken`: an error where one is missing or one is too many; a missing
/// option is reported first.
pub open spec fn options_check(given: Options, taken: Options) -> Option<ArgumentError> {
    if (taken.collection && !given.collection) || (taken.key && !given.key) || (taken.value
        && !given.value) || (taken.name && !given.name) {
        Some(ArgumentError::MissingOption)
    } else if (given.collection && !taken.collection) || (given.key && !taken.key) || (given.value
        && !taken.value) || (given.name && !taken.name) {
        Some(ArgumentError::UnexpectedOption)
    } else {
        None
    }
}

/// No option.
pub open spec fn no_options() -> Options {
    Options { collection: false, key: false, value: false, name: false }
}

/// The collection and the key.
pub open spec fn place_options() -> Options {
    Options { collection: true, key: true, value: false, name: false }
}

/// The collection, the key and the value.
pub open spec fn insert_options() -> Options {
    Options { collection: true, key: true, value: true, name: false }
}

/// The name.
pub open spec fn name_options() -> Options {
    Options { collection: false, key: false, value: false, name: true }
}

/// The command of the shell that `arguments` name.
pub open spec fn shell_command_of(arguments: ArgumentsView) -> Result<ShellCommand, ArgumentError> {
    let taken = if arguments.subcommand == "start"@ || arguments.subcommand == "stop"@
        || arguments.subcommand == "status"@ {
        Some(no_options())
    } else if arguments.subcommand == "insert"@ {
        Some(insert_options())
    } else if arguments.subcommand == "get"@ || arguments.subcommand == "delete"@ {
        Some(place_options())
    } else {
        None
    };
    match taken {
        None => Err(ArgumentError::UnknownSubcommand),
        Some(taken) => match options_check(arguments.given(), taken) {
            Some(error) => Err(error),
            None => Ok(
                if arguments.subcommand == "start"@ {
                    ShellCommand::Start
                } else if arguments.subcommand == "stop"@ {
                    ShellCommand::Stop
                } else if arguments.subcommand == "status"@ {
                    ShellCommand::Status
                } else if arguments.subcommand == "insert"@ {
                    ShellCommand::Insert {
                        collection: arguments.collection->0,
                        key: arguments.key->0,
                        value: arguments.value->0,
                    }
                } else if arguments.subcommand == "get"@ {
                    ShellCommand::Get { collection: arguments.collection->0, key: arguments.key->0 }
                } else {
                    ShellCommand::Delete {
                        collection: arguments.collection->0,
                        key: arguments.key->0,
                    }
                },
            ),
        },
    }
}

/// The command of the store that `arguments` name.
pub open spec fn store_command_of(arguments: ArgumentsView) -> Result<CommandView, ArgumentError> {
    let taken = if arguments.subcommand == "status"@ {
        Some(no_options())
    } else if arguments.subcommand == "insert"@ {
        Some(insert_options())
    } else if arguments.subcommand == "get"@ || arguments.subcommand == "delete"@ {
        Some(place_options())
    } else if arguments.subcommand == "create-collection"@ || arguments.subcommand
        == "delete-collection"@ {
        Some(name_options())
    } else {
        None
    };
    match taken {
        None => Err(ArgumentError::UnknownSubcommand),
        Some(taken) => match options_check(arguments.given(), taken) {
            Some(error) => Err(error),
            None => Ok(
                if arguments.subcommand == "status"@ {
                    CommandView::Status
                } else if arguments.subcommand == "insert"@ {
                    CommandView::Insert {
                        collection: arguments.collection->0,
                        key: arguments.key->0,
                        value: arguments.value->0,
                    }
                } else if arguments.subcommand == "get"@ {
                    CommandView::Get { collection: arguments.collection->0, key: arguments.key->0 }
                } else if arguments.subcommand == "delete"@ {
                    CommandView::Delete {
                        collection: arguments.collection->0,
                        key: arguments.key->0,
                    }
                } else if arguments.subcommand == "create-collection"@ {
                    CommandView::CreateCollection { name: arguments.name->0 }
                } else {
                    CommandView::DeleteCollection { name: arguments.name->0 }
                },
            ),
        },
    }
}

/// The names of the subcommands differ from one another.
pub proof fn lemma_names_differ()
    ensures
        "start"@ != "stop"@,
        "start"@ != "status"@,
        "start"@ != "insert"@,
        "start"@ != "get"@,
        "start"@ != "delete"@,
        "stop"@ != "status"@,
        "stop"@ != "insert"@,
        "stop"@ != "get"@,
        "stop"@ != "delete"@,
        "status"@ != "insert"@,
        "status"@ != "get"@,
        "status"@ != "delete"@,
        "status"@ != "create-collection"@,
        "status"@ != "delete-collection"@,
        "insert"@ != "get"@,
        "insert"@ != "delete"@,
        "insert"@ != "create-collection"@,
        "insert"@ != "delete-collection"@,
        "get"@ != "delete"@,
        "get"@ != "create-collection"@,
        "get"@ != "delete-collection"@,
        "delete"@ != "create-collection"@,
        "delete"@ != "delete-collection"@,
        "create-collection"@ != "delete-collection"@,
{
    reveal_strlit("start");
    reveal_strlit("stop");
    reveal_strlit("status");
    reveal_strlit("insert");
    reveal_strlit("get");
    reveal_strlit("delete");
    reveal_strlit("create-collection");
    reveal_strlit("delete-collection");
    assert("start"@.len() == 5);
    assert("stop"@.len() == 4);
    assert("status"@.len() == 6);
    assert("insert"@.len() == 6);
    assert("get"@.len() == 3);
    assert("delete"@.len() == 6);
    assert("create-collection"@.len() == 17);
    assert("delete-collection"@.len() == 17);
    assert("status"@[0] != "insert"@[0]);
    assert("status"@[0] != "delete"@[0]);
    assert("insert"@[0] != "delete"@[0]);
    assert("create-collection"@[0] != "delete-collection"@[0]);
}

/// Whether `name` is the word `word`.
fn is_name(name: &String, word: &str) -> (same: bool)
    ensures
        same == (name@ == word@),
{
    *name == String::from_str(word)
}

impl Arguments {
    /// Checks the options that were given against those that the
    /// subcommand takes.
    fn check(&self, collection: bool, key: bool, value: bool, name: bool) -> (error: Option<
        ArgumentError,
    >)
        ensures
            error == options_check(self@.given(), Options { collection, key, value, name }),
    {
        if (collection && self.collection.is_none()) || (key && self.key.is_none()) || (value
            && self.value.is_none()) || (name && self.name.is_none()) {
            Some(ArgumentError::MissingOption)
        } else if (self.collection.is_some() && !collection) || (self.key.is_some() && !key)
            || (self.value.is_some() && !value) || (self.name.is_some() && !name) {
            Some(ArgumentError::UnexpectedOption)
        } else {
            None
        }
    }
}

impl Command {
    /// The command of the shell that `arguments` name: `start`, `stop` and
    /// `status` take no option; `insert` takes the collection, the key and
    /// the value; `get` and `delete` take the collection and the key.
    pub fn from_arguments(arguments: Arguments) -> (command: Result<Command, ArgumentError>)
        ensures
            match shell_command_of(arguments@) {
                Ok(expected) => command matches Ok(c) && c@ == expected,
                Err(expected) => command matches Err(e) && e == expected,
            },
    {
        proof {
            lemma_names_differ();
        }
        let plain = is_name(&arguments.subcommand, "start") || is_name(
            &arguments.subcommand,
            "stop",
        ) || is_name(&arguments.subcommand, "status");
        let insert = is_name(&arguments.subcommand, "insert");
        let place = is_name(&arguments.subcommand, "get") || is_name(
            &arguments.subcommand,
            "delete",
        );
        if !plain && !insert && !place {
            return Err(ArgumentError::UnknownSubcommand);
        }
        match arguments.check(insert || place, insert || place, insert, false) {
            Some(error) => Err(error),
            None => {
                let Arguments { subcommand, collection, key, value, name } = arguments;
                if is_name(&subcommand, "start") {
                    Ok(Command::Start)
                } else if is_name(&subcommand, "stop") {
                    Ok(Command::Stop)
                } else if is_name(&subcommand, "status") {
                    Ok(Command::Status)
                } else if is_name(&subcommand, "insert") {
                    Ok(
                        Command::Insert(
                            InsertArgs {
                                collection: collection.unwrap(),
                                key: key.unwrap(),
                                value: value.unwrap(),
                            },
                        ),
                    )
                } else if is_name(&subcommand, "get") {
                    Ok(Command::Get(GetArgs { collection: collection.unwrap(), key: key.unwrap() }))
                } else {
                    Ok(
                        Command::Delete(
                            DeleteArgs { collection: collection.unwrap(), key: key.unwrap() },
                        ),
                    )
                }
            },
        }
    }
}

impl CliCommand {
    /// The command of the store that `arguments` name: `status` takes no
    /// option; `insert` takes the collection, the key and the value; `get`
    /// and `delete` take the collection and the key; `create-collection`
    /// and `delete-collection` take the name.
    pub fn from_arguments(arguments: Arguments) -> (command: Result<CliCommand, ArgumentError>)
        ensures
            match store_command_of(arguments@) {
                Ok(expected) => command matches Ok(c) && c@ == expected,
                Err(expected) => command matches Err(e) && e == expected,
            },
    {
        proof {
            lemma_names_differ();
        }
        let plain = is_name(&arguments.subcommand, "status");
        let insert = is_name(&arguments.subcommand, "insert");
        let place = is_name(&arguments.subcommand, "get") || is_name(
            &arguments.subcommand,
            "delete",
        );
        let named = is_name(&arguments.subcommand, "create-collection") || is_name(
            &arguments.subcommand,
            "delete-collection",
        );
        if !plain && !insert && !place && !named {
            return Err(ArgumentError::UnknownSubcommand);
        }
        match arguments.check(insert || place, insert || place, insert, named) {
            Some(error) => Err(error),
            None => {
                let Arguments { subcommand, collection, key, value, name } = arguments;
                if is_name(&subcommand, "status") {
                    Ok(CliCommand::Status)
                } else if is_name(&subcommand, "insert") {
                    Ok(
                        CliCommand::Insert(
                            InsertCommandArgs {
                                collection: collection.unwrap(),
                                key: key.unwrap(),
                                value: value.unwrap(),
                            },
                        ),
                    )
                } else if is_name(&subcommand, "get") {
                    Ok(
                        CliCommand::Get(
                            GetCommandArgs { collection: collection.unwrap(), key: key.unwrap() },
                        ),
                    )
                } else if is_name(&subcommand, "delete") {
                    Ok(
                        CliCommand::Delete(
                            DeleteCommandArgs { collection: collection.unwrap(), key: key.unwrap() },
                        ),
                    )
                } else if is_name(&subcommand, "create-collection") {
                    Ok(
                        CliCommand::CreateCollection(
                            CreateCollectionCommandArgs { name: name.unwrap() },
                        ),
                    )
                } else {
                    Ok(
                        CliCommand::DeleteCollection(
                            CreateCollectionCommandArgs { name: name.unwrap() },
                        ),
                    )
                }
            },
        }
    }
}

} // verus!
