//! The server's side of a session: what it makes of a message that arrived.

use crate::client::{exit_bytes, quit_bytes};
use crate::codec::{command_decoding, decode_error_text, DecodeError};
use crate::command::{CliCommand, CommandView};
use crate::database::{Database, StoreView};
use crate::document::ValueParseError;
use crate::executor::{answer_to, execute_command, store_after};
use crate::response::{response_encoding, Response, ResponseView};
use crate::wal::{record, recordable, wal_error_text, WalError, WAL};
use vstd::prelude::*;
use vstd::string::*;
use vstd::utf8::*;

verus! {

/// The two ends of a connection.
pub enum HandlerType {
    Server,
    Client,
}

/// What the server does about a message.
#[derive(Debug, PartialEq, Eq)]
pub enum Step {
    /// Close the connection: the client asked for it.
    Close,
    /// Send these bytes back, as one frame.
    Reply(Vec<u8>),
}

/// What the server does about a message, with the bytes as a sequence.
pub enum StepView {
    Close,
    Reply(Seq<u8>),
}

impl View for Step {
    type V = StepView;

    open spec fn view(&self) -> StepView {
        match self {
            Step::Close => StepView::Close,
            Step::Reply(bytes) => StepView::Reply(bytes@),
        }
    }
}

/// The greeting that the server sends when a client connects.
pub open spec fn welcome_text() -> Seq<char> {
    "Welcome to oxidoc!\n"@
}

/// Whether a message asks to close the connection: it is `exit` or `quit`.
pub open spec fn asks_to_close(payload: Seq<u8>) -> bool {
    payload == exit_bytes() || payload == quit_bytes()
}

/// The answer to a message that is no command.
pub open spec fn decode_failure(error: DecodeError) -> ResponseView {
    ResponseView::Failure("Error decoding command: "@ + decode_error_text(error))
}

/// The answer to a command that could not be logged.
pub open spec fn log_failure(error: WalError) -> ResponseView {
    ResponseView::Failure("Error logging command: "@ + wal_error_text(error))
}

/// The answer that goes back for `command` on `store`: the command's own,
/// or a failure that says why its value is no document.
pub open spec fn reply_to(command: CommandView, store: StoreView) -> ResponseView {
    match answer_to(command, store) {
        Ok(response) => response,
        Err(message) => ResponseView::Failure("Error processing command: "@ + message),
    }
}

/// What the server does about the message `payload` when its store is
/// `store`.
pub open spec fn step_for(payload: Seq<u8>, store: StoreView) -> StepView {
    if asks_to_close(payload) {
        StepView::Close
    } else {
        match command_decoding(payload) {
            Err(error) => StepView::Reply(response_encoding(decode_failure(error))),
            Ok(command) => StepView::Reply(response_encoding(reply_to(command, store))),
        }
    }
}

/// The store once the message `payload` was dealt with.
pub open spec fn store_for(payload: Seq<u8>, store: StoreView) -> StoreView {
    if asks_to_close(payload) {
        store
    } else {
        match command_decoding(payload) {
            Err(_) => store,
            Ok(command) => store_after(command, store),
        }
    }
}

/// The greeting that the server sends when a client connects.
pub fn welcome_message() -> (greeting: Vec<u8>)
    ensures
        greeting@ == encode_utf8(welcome_text()),
{
    "Welcome to oxidoc!\n".as_bytes_vec()
}

/// Whether a message asks to close the connection.
pub fn is_close_request(payload: &[u8]) -> (closing: bool)
    ensures
        closing == asks_to_close(payload@),
{
    if payload.len() != 4 {
        return false;
    }
    let exit = payload[0] == 0x65 && payload[1] == 0x78 && payload[2] == 0x69 && payload[3] == 0x74;
    let quit = payload[0] == 0x71 && payload[1] == 0x75 && payload[2] == 0x69 && payload[3] == 0x74;
    proof {
        if exit {
            assert(payload@ =~= exit_bytes());
        }
        if quit {
            assert(payload@ =~= quit_bytes());
        }
    }
    exit || quit
}

/// The answer that goes back for what carrying out a command gave: the
/// command's own answer, or a failure that repeats the error.
pub fn reply_for(result: Result<Response, ValueParseError>) -> (response: Response)
    ensures
        match result {
            Ok(answer) => response@ == answer@,
            Err(error) => response@ == ResponseView::Failure(
                "Error processing command: "@ + error.message@,
            ),
        },
{
    match result {
        Ok(answer) => answer,
        Err(error) => {
            let mut message = String::from_str("Error processing command: ");
            message.append(error.message.as_str());
            Response::Failure(message)
        },
    }
}

/// The failure that answers a message that is no command.
fn decode_failure_response(error: DecodeError) -> (response: Response)
    ensures
        response@ == decode_failure(error),
{
    let mut message = String::from_str("Error decoding command: ");
    message.append(error.to_text().as_str());
    Response::Failure(message)
}

/// Carries out a command on the store and encodes what goes back: the
/// command's answer, or a failure where the value of an insert is no
/// document.
pub fn carry_out(command: CliCommand, db: &mut Database) -> (reply: Vec<u8>)
    requires
        old(db).wf(),
    ensures
        final(db).wf(),
        final(db)@ == store_after(command@, old(db)@),
        reply@ == response_encoding(reply_to(command@, old(db)@)),
{
    let result = execute_command(command, db);
    reply_for(result).as_bytes()
}

/// Deals with one message of a client.
///
/// `exit` and `quit` close the connection. Any other message is decoded as
/// a command and carried out on the store, and the encoded answer goes
/// back. A message that is no command, and an insert whose value is no
/// document, are answered with a failure and change nothing.
pub fn handle_payload(payload: &[u8], db: &mut Database) -> (step: Step)
    requires
        old(db).wf(),
    ensures
        final(db).wf(),
        step@ == step_for(payload@, old(db)@),
        final(db)@ == store_for(payload@, old(db)@),
{
    if is_close_request(payload) {
        return Step::Close;
    }
    match CliCommand::from_bytes(payload) {
        Err(error) => Step::Reply(decode_failure_response(error).as_bytes()),
        Ok(command) => Step::Reply(carry_out(command, db)),
    }
}

/// What the server does about a message when it keeps a log.
#[derive(Debug, PartialEq, Eq)]
pub enum Plan {
    /// Close the connection: the client asked for it.
    Close,
    /// Send these bytes back, as one frame; nothing is logged or carried
    /// out.
    Reply(Vec<u8>),
    /// Write the record to the log; once it is durable, move the log on to
    /// its next number, carry the command out and send its answer back.
    Log { command: CliCommand, record: Vec<u8> },
}

/// A plan with its bytes and strings as sequences.
pub enum PlanView {
    Close,
    Reply(Seq<u8>),
    Log { command: CommandView, record: Seq<u8> },
}

impl View for Plan {
    type V = PlanView;

    open spec fn view(&self) -> PlanView {
        match self {
            Plan::Close => PlanView::Close,
            Plan::Reply(bytes) => PlanView::Reply(bytes@),
            Plan::Log { command, record } => PlanView::Log { command: command@, record: record@ },
        }
    }
}

/// What the server does about the message `payload` when the next entry of
/// its log gets the number `sequence`: a command is logged before it is
/// carried out, and one that cannot be logged is answered with a failure.
pub open spec fn plan_for(payload: Seq<u8>, sequence: u64) -> PlanView {
    if asks_to_close(payload) {
        PlanView::Close
    } else {
        match command_decoding(payload) {
            Err(error) => PlanView::Reply(response_encoding(decode_failure(error))),
            Ok(command) => if recordable(sequence, command) {
                PlanView::Log { command, record: record(sequence, command) }
            } else if sequence == u64::MAX {
                PlanView::Reply(response_encoding(log_failure(WalError::SequenceExhausted)))
            } else {
                PlanView::Reply(response_encoding(log_failure(WalError::EntryTooLarge)))
            },
        }
    }
}

/// Decides what to do about one message of a client when a log is kept.
///
/// Nothing is changed here. For a command, the record is handed out: it is
/// for the caller to make it durable, then to move the log on with
/// [`WAL::advance`] and to carry the command out with [`carry_out`].
pub fn plan(payload: &[u8], wal: &WAL) -> (decided: Plan)
    ensures
        decided@ == plan_for(payload@, wal.next_sequence()),
        decided is Log ==> wal.next_sequence() < u64::MAX,
{
    if is_close_request(payload) {
        return Plan::Close;
    }
    match CliCommand::from_bytes(payload) {
        Err(error) => Plan::Reply(decode_failure_response(error).as_bytes()),
        Ok(command) => match wal.next_record(&command) {
            Err(error) => {
                let mut message = String::from_str("Error logging command: ");
                message.append(error.to_text().as_str());
                Plan::Reply(Response::Failure(message).as_bytes())
            },
            Ok(record) => Plan::Log { command, record },
        },
    }
}

} // verus!
