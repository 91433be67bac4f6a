//! The commands that a client sends and the server executes.

use vstd::prelude::*;

verus! {

/// What `insert` needs: where to store and what.
#[derive(Debug, PartialEq, Eq, Clone)]
pub struct InsertCommandArgs {
    pub collection: String,
    pub key: String,
    pub value: String,
}

/// What `get` needs: where to look.
#[derive(Debug, PartialEq, Eq, Clone)]
pub struct GetCommandArgs {
    pub collection: String,
    pub key: String,
}

/// What `delete` needs: which key to drop.
#[derive(Debug, PartialEq, Eq, Clone)]
pub struct DeleteCommandArgs {
    pub collection: String,
    pub key: String,
}

/// The name of a collection to create; `delete-collection` carries one too.
#[derive(Debug, PartialEq, Eq, Clone)]
pub struct CreateCollectionCommandArgs {
    pub name: String,
}

/// The name of a collection to delete.
#[derive(Debug, PartialEq, Eq, Clone)]
pub struct DeleteCollectionCommandArgs {
    pub name: String,
}

/// A command of the store.
#[derive(Debug, PartialEq, Eq, Clone)]
pub enum CliCommand {
    Status,
    Insert(InsertCommandArgs),
    Get(GetCommandArgs),
    Delete(DeleteCommandArgs),
    CreateCollection(CreateCollectionCommandArgs),
    DeleteCollection(CreateCollectionCommandArgs),
}

/// A command with its strings taken as sequences of characters.
pub enum CommandView {
    Status,
    Insert { collection: Seq<char>, key: Seq<char>, value: Seq<char> },
    Get { collection: Seq<char>, key: Seq<char> },
    Delete { collection: Seq<char>, key: Seq<char> },
    CreateCollection { name: Seq<char> },
    DeleteCollection { name: Seq<char> },
}

impl View for CliCommand {
    type V = CommandView;

    open spec fn view(&self) -> CommandView {
        match self {
            CliCommand::Status => CommandView::Status,
            CliCommand::Insert(args) => CommandView::Insert {
                collection: args.collection@,
                key: args.key@,
                value: args.value@,
            },
            CliCommand::Get(args) => CommandView::Get {
                collection: args.collection@,
                key: args.key@,
            },
            CliCommand::Delete(args) => CommandView::Delete {
                collection: args.collection@,
                key: args.key@,
            },
            CliCommand::CreateCollection(args) => CommandView::CreateCollection { name: args.name@ },
            CliCommand::DeleteCollection(args) => CommandView::DeleteCollection { name: args.name@ },
        }
    }
}

/// The views of `commands`, in order.
pub open spec fn command_views(commands: Seq<CliCommand>) -> Seq<CommandView> {
    commands.map_values(|command: CliCommand| command@)
}

} // verus!
