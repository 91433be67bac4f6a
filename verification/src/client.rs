//! The client's side of a session: what it makes of a line that was typed
//! and of an answer that arrived.

use crate::response::{Response, ResponseView};
use vstd::prelude::*;
use vstd::string::*;
use vstd::utf8::*;

verus! {

/// Why the client could not go on.
#[derive(Debug)]
pub enum ClientError {
    /// The arguments of the program could not be read.
    ArgParse(String),
    /// The server could not be reached.
    Connection(String),
}

/// The line that reports an error of the client.
pub open spec fn client_error_text(error: ClientError) -> Seq<char> {
    match error {
        ClientError::ArgParse(reason) => "Argument parsing error: "@ + reason@,
        ClientError::Connection(reason) => "Connection error: "@ + reason@,
    }
}

impl ClientError {
    /// The line that reports the error.
    pub fn to_text(&self) -> (line: String)
        ensures
            line@ == client_error_text(*self),
    {
        match self {
            ClientError::ArgParse(reason) => {
                let mut line = String::from_str("Argument parsing error: ");
                line.append(reason.as_str());
                line
            },
            ClientError::Connection(reason) => {
                let mut line = String::from_str("Connection error: ");
                line.append(reason.as_str());
                line
            },
        }
    }
}

/// Takes note of the commands that pass.
pub struct CommandHandler;

impl CommandHandler {
    /// The note on `command`.
    pub fn handle_command(&self, command: &str) -> (note: String)
        ensures
            note@ == "Handling command: "@ + command@,
    {
        let mut note = String::from_str("Handling command: ");
        note.append(command);
        note
    }
}

/// The words of `line`, as `shell_words::split` finds them: split at blanks,
/// with quotes and backslashes as a shell reads them; `None` where a quote
/// is not closed.
pub uninterp spec fn shell_splitting(line: Seq<char>) -> Option<Seq<Seq<char>>>;

/// What `str::trim` leaves of `text`: `text` without the white space at its
/// two ends.
pub uninterp spec fn trimming(text: Seq<char>) -> Seq<char>;

/// Splits `line` with `shell_words::split`.
///
/// Claimed of it: the outcome depends on the line alone.
#[verifier::external_body]
fn split_words(line: &str) -> (words: Option<Vec<String>>)
    ensures
        match words {
            Some(found) => shell_splitting(line@) == Some(found.deep_view()),
            None => shell_splitting(line@) is None,
        },
{
    shell_words::split(line).ok()
}

/// Trims `text` with `str::trim`.
///
/// Claimed of it: the outcome depends on the text alone.
#[verifier::external_body]
fn trimmed(text: &str) -> (kept: &str)
    ensures
        kept@ == trimming(text@),
{
    text.trim()
}

/// Why a line holds no arguments.
#[derive(Debug, Clone, Copy, PartialEq, Eq, Structural)]
pub enum LineError {
    /// A quote is opened and not closed.
    MissingClosingQuote,
}

/// The arguments that `words` make: the name of the program, `prog`, and
/// then the words.
pub open spec fn arguments_of(words: Seq<Seq<char>>) -> Seq<Seq<char>> {
    seq!["prog"@] + words
}

/// Turns the words of a line into the arguments of a command: the name of
/// the program goes before them.
pub fn arguments_from_words(words: Vec<String>) -> (arguments: Vec<String>)
    ensures
        arguments.deep_view() == arguments_of(words.deep_view()),
{
    let mut arguments = words;
    arguments.insert(0, String::from_str("prog"));
    assert(arguments.deep_view() =~= arguments_of(words.deep_view())) by {
        assert(arguments.deep_view().len() == words.deep_view().len() + 1);
        assert forall|i: int| 0 <= i < arguments.deep_view().len() implies arguments.deep_view()[i]
            == arguments_of(words.deep_view())[i] by {
            if i > 0 {
                assert(arguments@[i] == words@[i - 1]);
            }
        }
    }
    arguments
}

/// Reads the arguments of a command out of a line that was typed: the line
/// is split as a shell splits it, and the name of the program goes before
/// the words. A line with an open quote holds no arguments.
pub fn command_line(line: &str) -> (arguments: Result<Vec<String>, LineError>)
    ensures
        match shell_splitting(line@) {
            Some(words) => arguments matches Ok(found) && found.deep_view() == arguments_of(words),
            None => arguments matches Err(error) && error == LineError::MissingClosingQuote,
        },
{
    match split_words(line) {
        Some(words) => Ok(arguments_from_words(words)),
        None => Err(LineError::MissingClosingQuote),
    }
}

/// An ASCII capital letter as its small letter; any other byte as itself.
pub open spec fn lower(byte: u8) -> u8 {
    if 0x41 <= byte <= 0x5a {
        (byte + 0x20) as u8
    } else {
        byte
    }
}

/// Whether `left` and `right` are the same but for the case of ASCII
/// letters.
pub open spec fn same_ignoring_case(left: Seq<u8>, right: Seq<u8>) -> bool {
    left.len() == right.len() && forall|i: int|
        0 <= i < left.len() ==> lower(#[trigger] left[i]) == lower(right[i])
}

/// The bytes of `exit`.
pub open spec fn exit_bytes() -> Seq<u8> {
    seq![0x65u8, 0x78u8, 0x69u8, 0x74u8]
}

/// The bytes of `quit`.
pub open spec fn quit_bytes() -> Seq<u8> {
    seq![0x71u8, 0x75u8, 0x69u8, 0x74u8]
}

/// Whether `text` is `exit` or `quit`, in small or capital letters.
pub open spec fn is_exit_word(text: Seq<char>) -> bool {
    same_ignoring_case(encode_utf8(text), exit_bytes()) || same_ignoring_case(
        encode_utf8(text),
        quit_bytes(),
    )
}

/// An ASCII capital letter as its small letter; any other byte as itself.
fn to_lower(byte: u8) -> (small: u8)
    ensures
        small == lower(byte),
{
    if 0x41 <= byte && byte <= 0x5a {
        byte + 0x20
    } else {
        byte
    }
}

/// Whether the four bytes `word` are `bytes`, but for the case of letters.
fn is_word(bytes: &[u8], b0: u8, b1: u8, b2: u8, b3: u8) -> (same: bool)
    ensures
        same == same_ignoring_case(bytes@, seq![b0, b1, b2, b3]),
{
    let ghost word = seq![b0, b1, b2, b3];
    if bytes.len() != 4 {
        return false;
    }
    let same = to_lower(bytes[0]) == to_lower(b0) && to_lower(bytes[1]) == to_lower(b1) && to_lower(
        bytes[2],
    ) == to_lower(b2) && to_lower(bytes[3]) == to_lower(b3);
    proof {
        assert(word[0] == b0 && word[1] == b1 && word[2] == b2 && word[3] == b3);
        if same {
            assert(same_ignoring_case(bytes@, word));
        } else {
            assert(!same_ignoring_case(bytes@, word));
        }
    }
    same
}

/// Whether `word` is `exit` or `quit`, in small or capital letters.
pub fn is_exit_command(word: &str) -> (leaving: bool)
    ensures
        leaving == is_exit_word(word@),
{
    let bytes = word.as_bytes();
    is_word(bytes, 0x65, 0x78, 0x69, 0x74) || is_word(bytes, 0x71, 0x75, 0x69, 0x74)
}

/// Whether a line that was typed ends the session: once the white space at
/// its ends is dropped, it is `exit` or `quit`, in small or capital letters.
pub fn is_exit(line: &str) -> (leaving: bool)
    ensures
        leaving == is_exit_word(trimming(line@)),
{
    is_exit_command(trimmed(line))
}

/// The line that shows an answer to the user of the shell.
pub open spec fn shown(response: ResponseView) -> Seq<char>
    recommends
        response != ResponseView::Doc(None),
{
    match response {
        ResponseView::Success(message) => "Success: "@ + message,
        ResponseView::Doc(Some(document)) => "Document: "@ + document,
        ResponseView::Doc(None) => "Document: "@,
        ResponseView::Failure(message) => "Error: "@ + message,
        ResponseView::Ack => "Acknowledged."@,
    }
}

/// The line that shows an answer to the user of the shell. An answer that
/// says "no document" has no such line.
pub fn handle_response(response: &Response) -> (line: String)
    requires
        response@ != ResponseView::Doc(None),
    ensures
        line@ == shown(response@),
{
    match response {
        Response::Success(message) => {
            let mut line = String::from_str("Success: ");
            line.append(message.as_str());
            line
        },
        Response::Doc(Some(document)) => {
            let mut line = String::from_str("Document: ");
            line.append(document.as_str());
            line
        },
        Response::Doc(None) => String::from_str("Document: "),
        Response::Failure(message) => {
            let mut line = String::from_str("Error: ");
            line.append(message.as_str());
            line
        },
        Response::Ack => String::from_str("Acknowledged."),
    }
}

} // verus!
