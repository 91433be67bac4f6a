//! Carrying out a command on the store.

use crate::command::{
    command_views, CliCommand, CommandView, CreateCollectionCommandArgs, InsertCommandArgs,
};
use crate::database::{
    store_create, store_delete, store_get, store_put, Database, StoreView,
};
use crate::document::{json_parsing, parsed_view, Document, ValueParseError};
use crate::response::{Response, ResponseView};
use crate::text::{debug_quoted, debug_quoting};
use vstd::prelude::*;
use vstd::string::*;

verus! {

/// The message that answers an insert that was carried out, made of the
/// three strings as they are quoted.
pub open spec fn insert_message_of(collection: Seq<char>, key: Seq<char>, value: Seq<char>) -> Seq<
    char,
> {
    "Insert success. InsertCommandArgs { collection: "@ + collection + ", key: "@ + key
        + ", value: "@ + value + " }"@
}

/// The message that answers the creation (or else the deletion) of a
/// collection, made of the name as it is quoted.
pub open spec fn collection_message_of(name: Seq<char>, created: bool) -> Seq<char> {
    "Collection CreateCollectionCommandArgs { name: "@ + name + if created {
        " } created."@
    } else {
        " } deleted."@
    }
}

/// The message that answers an insert that was carried out: it repeats the
/// arguments as the `Debug` format shows them.
pub open spec fn insert_message(collection: Seq<char>, key: Seq<char>, value: Seq<char>) -> Seq<
    char,
> {
    insert_message_of(debug_quoting(collection), debug_quoting(key), debug_quoting(value))
}

/// The message that answers the creation of the collection `name`.
pub open spec fn created_message(name: Seq<char>) -> Seq<char> {
    collection_message_of(debug_quoting(name), true)
}

/// The message that answers the deletion of the collection `name`.
pub open spec fn deleted_message(name: Seq<char>) -> Seq<char> {
    collection_message_of(debug_quoting(name), false)
}

/// The message that answers a request for the status.
pub open spec fn status_message() -> Seq<char> {
    "Database status: Operational."@
}

/// The store after an insert whose value was read as `parsed`: the document
/// is put where the value is one, and nothing changes where it is none.
pub open spec fn store_after_insert(
    collection: Seq<char>,
    key: Seq<char>,
    parsed: Result<Seq<char>, Seq<char>>,
    store: StoreView,
) -> StoreView {
    match parsed {
        Ok(document) => store_put(store, collection, key, document),
        Err(_) => store,
    }
}

/// The answer to an insert whose value was read as `parsed`, or the message
/// on why the value is no document.
pub open spec fn answer_to_insert(
    collection: Seq<char>,
    key: Seq<char>,
    value: Seq<char>,
    parsed: Result<Seq<char>, Seq<char>>,
) -> Result<ResponseView, Seq<char>> {
    match parsed {
        Ok(_) => Ok(ResponseView::Success(insert_message(collection, key, value))),
        Err(message) => Err(message),
    }
}

/// The store after `command` was carried out on `store`.
pub open spec fn store_after(command: CommandView, store: StoreView) -> StoreView {
    match command {
        CommandView::Status => store,
        CommandView::Insert { collection, key, value } => store_after_insert(
            collection,
            key,
            json_parsing(value),
            store,
        ),
        CommandView::Get { .. } => store,
        CommandView::Delete { collection, key } => store_delete(store, collection, key),
        CommandView::CreateCollection { name } => store_create(store, name),
        CommandView::DeleteCollection { name } => store.remove(name),
    }
}

/// The answer to `command` when it is carried out on `store`, or the message
/// on why the value of an insert is no document.
pub open spec fn answer_to(command: CommandView, store: StoreView) -> Result<
    ResponseView,
    Seq<char>,
> {
    match command {
        CommandView::Status => Ok(ResponseView::Success(status_message())),
        CommandView::Insert { collection, key, value } => answer_to_insert(
            collection,
            key,
            value,
            json_parsing(value),
        ),
        CommandView::Get { collection, key } => Ok(
            ResponseView::Doc(store_get(store, collection, key)),
        ),
        CommandView::Delete { .. } => Ok(ResponseView::Ack),
        CommandView::CreateCollection { name } => Ok(ResponseView::Success(created_message(name))),
        CommandView::DeleteCollection { name } => Ok(ResponseView::Success(deleted_message(name))),
    }
}

/// Whether `result` is the answer, or the error, that `expected` describes.
pub open spec fn result_is(
    result: Result<Response, ValueParseError>,
    expected: Result<ResponseView, Seq<char>>,
) -> bool {
    match expected {
        Ok(response) => result matches Ok(r) && r@ == response,
        Err(message) => result matches Err(e) && e.message@ == message,
    }
}

/// Writes the message that answers an insert, from the three strings as
/// they are quoted.
pub fn write_insert_message(collection: &str, key: &str, value: &str) -> (message: String)
    ensures
        message@ == insert_message_of(collection@, key@, value@),
{
    let mut message = String::from_str("Insert success. InsertCommandArgs { collection: ");
    message.append(collection);
    message.append(", key: ");
    message.append(key);
    message.append(", value: ");
    message.append(value);
    message.append(" }");
    message
}

/// Writes the message that answers the creation (or else the deletion) of
/// a collection, from the name as it is quoted.
pub fn write_collection_message(name: &str, created: bool) -> (message: String)
    ensures
        message@ == collection_message_of(name@, created),
{
    let mut message = String::from_str("Collection CreateCollectionCommandArgs { name: ");
    message.append(name);
    if created {
        message.append(" } created.");
    } else {
        message.append(" } deleted.");
    }
    message
}

/// The message that answers an insert of `args`.
fn insert_message_for(args: &InsertCommandArgs) -> (message: String)
    ensures
        message@ == insert_message(args.collection@, args.key@, args.value@),
{
    let collection = debug_quoted(args.collection.as_str());
    let key = debug_quoted(args.key.as_str());
    let value = debug_quoted(args.value.as_str());
    write_insert_message(collection.as_str(), key.as_str(), value.as_str())
}

/// The message that answers the creation (or else the deletion) of the
/// collection that `args` name.
fn collection_message_for(args: &CreateCollectionCommandArgs, created: bool) -> (message: String)
    ensures
        message@ == if created {
            created_message(args.name@)
        } else {
            deleted_message(args.name@)
        },
{
    let name = debug_quoted(args.name.as_str());
    write_collection_message(name.as_str(), created)
}

/// Carries out an insert whose value was already read: `parsed` is the
/// document, or why the value is none.
///
/// A document is stored and the insert answered with a success; an error is
/// handed on and the store left as it was.
pub fn execute_insert(
    args: InsertCommandArgs,
    parsed: Result<Document, ValueParseError>,
    db: &mut Database,
) -> (result: Result<Response, ValueParseError>)
    requires
        old(db).wf(),
    ensures
        final(db).wf(),
        final(db)@ == store_after_insert(args.collection@, args.key@, parsed_view(parsed), old(db)@),
        result_is(
            result,
            answer_to_insert(args.collection@, args.key@, args.value@, parsed_view(parsed)),
        ),
{
    match parsed {
        Ok(document) => {
            let message = insert_message_for(&args);
            db.put(args.collection, args.key, document);
            Ok(Response::Success(message))
        },
        Err(error) => Err(error),
    }
}

/// Carries out `command` on the store and answers it.
///
/// An insert reads its value as JSON and stores the document; a value that
/// is no JSON is an error and changes nothing. A get answers with the
/// document, or with none. A delete drops the key, present or not, and is
/// acknowledged. Creating and deleting a collection answer with a message
/// that repeats the name. At most one thing in the store changes.
pub fn execute_command(command: CliCommand, db: &mut Database) -> (result: Result<
    Response,
    ValueParseError,
>)
    requires
        old(db).wf(),
    ensures
        final(db).wf(),
        final(db)@ == store_after(command@, old(db)@),
        result_is(result, answer_to(command@, old(db)@)),
{
    match command {
        CliCommand::Insert(args) => {
            let parsed = Document::parse(args.value.as_str());
            execute_insert(args, parsed, db)
        },
        CliCommand::Get(args) => {
            match db.get(args.collection.as_str(), args.key.as_str()) {
                Some(document) => Ok(Response::Doc(Some(document.duplicate()))),
                None => Ok(Response::Doc(None)),
            }
        },
        CliCommand::Delete(args) => {
            db.delete(args.collection, args.key);
            Ok(Response::Ack)
        },
        CliCommand::Status => Ok(Response::Success(String::from_str("Database status: Operational."))),
        CliCommand::DeleteCollection(args) => {
            let message = collection_message_for(&args, false);
            db.delete_collection(args.name.as_str());
            Ok(Response::Success(message))
        },
        CliCommand::CreateCollection(args) => {
            let message = collection_message_for(&args, true);
            db.create_collection(args.name);
            Ok(Response::Success(message))
        },
    }
}

/// The store after `commands` were carried out on `store`, one after the
/// other.
pub open spec fn run(commands: Seq<CommandView>, store: StoreView) -> StoreView
    decreases commands.len(),
{
    if commands.len() == 0 {
        store
    } else {
        store_after(commands.last(), run(commands.drop_last(), store))
    }
}

/// Carries out `commands` on the store, one after the other. The answers
/// are dropped; an insert whose value is no document changes nothing.
pub fn execute_all(commands: Vec<CliCommand>, db: &mut Database)
    requires
        old(db).wf(),
    ensures
        final(db).wf(),
        final(db)@ == run(command_views(commands@), old(db)@),
{
    let ghost all = command_views(commands@);
    for command in iter: commands
        invariant
            db.wf(),
            iter.seq() == commands@,
            all == command_views(commands@),
            db@ == run(all.take(iter.index() as int), old(db)@),
    {
        proof {
            let done = all.take(iter.index() as int);
            let next = all.take(iter.index() + 1);
            assert(next.drop_last() =~= done);
            assert(next.last() == command@);
        }
        let _ = execute_command(command, db);
    }
    assert(all.take(all.len() as int) =~= all);
}

/// A delete is always acknowledged. Whatever the store holds, the answer
/// to a delete is an acknowledgement, never an error; where the key is
/// absent the store stays as it is, so the next delete finds it absent
/// again.
pub proof fn law_delete_is_acknowledged(collection: Seq<char>, key: Seq<char>, store: StoreView)
    ensures
        answer_to(CommandView::Delete { collection, key }, store) == Ok::<ResponseView, Seq<char>>(
            ResponseView::Ack,
        ),
        store_get(store, collection, key) is None ==> store_after(
            CommandView::Delete { collection, key },
            store,
        ) == store,
        store_get(store_after(CommandView::Delete { collection, key }, store), collection, key)
            is None,
{
    let after = store_after(CommandView::Delete { collection, key }, store);
    if store_get(store, collection, key) is None {
        if store.contains_key(collection) {
            assert(store[collection].remove(key) =~= store[collection]);
        }
        assert(after =~= store);
    }
}

} // verus!
