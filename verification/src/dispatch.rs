//! Executors of shell commands, and the choice among them by name.

use crate::cli::{Command, ShellCommand};
use vstd::prelude::*;
use vstd::string::*;

verus! {

/// What the executor that only reports says to `command`.
pub open spec fn dummy_reply(command: ShellCommand) -> Seq<char> {
    match command {
        ShellCommand::Start => "Executor started."@,
        ShellCommand::Stop => "Executor stopped."@,
        ShellCommand::Insert { collection, key, value } => "Inserted key '"@ + key
            + "' with value '"@ + value + "' into collection '"@ + collection + "'."@,
        ShellCommand::Get { collection, key } => "Retrieved value for key '"@ + key
            + "' from collection '"@ + collection + "'."@,
        ShellCommand::Delete { collection, key } => "Deleted key '"@ + key
            + "' from collection '"@ + collection + "'."@,
        ShellCommand::Status => "Executor status: Running."@,
    }
}

/// Something that carries out shell commands and says what it did.
pub trait CommandExecutor {
    /// What the executor says to `command`.
    spec fn reply(&self, command: ShellCommand) -> Seq<char>;

    /// Carries out `command` and says what was done.
    fn execute(&self, command: Command) -> (said: String)
        ensures
            said@ == self.reply(command@),
    ;
}

/// The executor that carries nothing out and only reports.
pub struct DummyCommandExecutor;

impl CommandExecutor for DummyCommandExecutor {
    open spec fn reply(&self, command: ShellCommand) -> Seq<char> {
        dummy_reply(command)
    }

    fn execute(&self, command: Command) -> (said: String) {
        match command {
            Command::Start => String::from_str("Executor started."),
            Command::Stop => String::from_str("Executor stopped."),
            Command::Insert(args) => {
                let mut said = String::from_str("Inserted key '");
                said.append(args.key.as_str());
                said.append("' with value '");
                said.append(args.value.as_str());
                said.append("' into collection '");
                said.append(args.collection.as_str());
                said.append("'.");
                said
            },
            Command::Get(args) => {
                let mut said = String::from_str("Retrieved value for key '");
                said.append(args.key.as_str());
                said.append("' from collection '");
                said.append(args.collection.as_str());
                said.append("'.");
                said
            },
            Command::Delete(args) => {
                let mut said = String::from_str("Deleted key '");
                said.append(args.key.as_str());
                said.append("' from collection '");
                said.append(args.collection.as_str());
                said.append("'.");
                said
            },
            Command::Status => String::from_str("Executor status: Running."),
        }
    }
}

/// Chooses an executor by the name of its kind.
pub struct CommandExecutorFactory;

impl CommandExecutorFactory {
    /// The executor of the kind `ex_type`: `"dummy"` names the one that only
    /// reports, and no other kind is known.
    pub fn get_executor(ex_type: String) -> (chosen: Option<DummyCommandExecutor>)
        ensures
            chosen is Some <==> ex_type@ == "dummy"@,
    {
        if ex_type == String::from_str("dummy") {
            Some(DummyCommandExecutor)
        } else {
            None
        }
    }
}

} // verus!
