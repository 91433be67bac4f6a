//! What the server answers, and how an answer travels as bytes.

use crate::document::{json_reading, parsed_view, Document, ValueParseError};
use crate::text::{from_utf8_lossy, lossy_decoding};
use vstd::prelude::*;
use vstd::slice::*;
use vstd::string::*;
use vstd::utf8::*;

verus! {

/// The answer to a command.
#[derive(Debug, PartialEq)]
pub enum Response {
    /// The command was carried out; the message says what was done.
    Success(String),
    /// The document that was asked for, or `None` where there is none.
    Doc(Option<Document>),
    /// The command was not carried out; the message says why.
    Failure(String),
    /// The command was taken note of.
    Ack,
}

/// An answer with its strings taken as sequences of characters.
pub enum ResponseView {
    Success(Seq<char>),
    Doc(Option<Seq<char>>),
    Failure(Seq<char>),
    Ack,
}

impl View for Response {
    type V = ResponseView;

    open spec fn view(&self) -> ResponseView {
        match self {
            Response::Success(message) => ResponseView::Success(message@),
            Response::Doc(Some(document)) => ResponseView::Doc(Some(document@)),
            Response::Doc(None) => ResponseView::Doc(None),
            Response::Failure(message) => ResponseView::Failure(message@),
            Response::Ack => ResponseView::Ack,
        }
    }
}

/// The bytes `ACK`.
pub open spec fn ack_bytes() -> Seq<u8> {
    seq![0x41u8, 0x43u8, 0x4bu8]
}

/// The byte `2`, which stands for "no document".
pub open spec fn no_document_bytes() -> Seq<u8> {
    seq![0x32u8]
}

/// The byte `!`, which goes before the message of a failure.
pub open spec fn failure_mark() -> u8 {
    0x21u8
}

/// Whether `bytes` begin with `{` and end with `}`.
pub open spec fn looks_like_object(bytes: Seq<u8>) -> bool {
    bytes.len() >= 1 && bytes[0] == 0x7bu8 && bytes[bytes.len() - 1] == 0x7du8
}

/// The bytes that carry an answer.
pub open spec fn response_encoding(response: ResponseView) -> Seq<u8> {
    match response {
        ResponseView::Success(message) => encode_utf8(message),
        ResponseView::Doc(Some(document)) => encode_utf8(document),
        ResponseView::Doc(None) => no_document_bytes(),
        ResponseView::Failure(message) => seq![failure_mark()] + encode_utf8(message),
        ResponseView::Ack => ack_bytes(),
    }
}

/// The answer that bytes between braces make, once they were read as JSON:
/// the document, or a failure with the reason why they are none.
pub open spec fn answer_from_reading(read: Result<Seq<char>, Seq<char>>) -> ResponseView {
    match read {
        Ok(document) => ResponseView::Doc(Some(document)),
        Err(message) => ResponseView::Failure("Deserialization failed for Document: "@ + message),
    }
}

/// The answer that is read out of `bytes`. The first rule that fits decides:
/// `ACK` is an acknowledgement; `2` is "no document"; bytes between braces
/// are a document, or a failure where they are no JSON; bytes behind `!` are
/// the message of a failure; anything else is the message of a success.
pub open spec fn response_decoding(bytes: Seq<u8>) -> ResponseView {
    if bytes == ack_bytes() {
        ResponseView::Ack
    } else if bytes == no_document_bytes() {
        ResponseView::Doc(None)
    } else if looks_like_object(bytes) {
        answer_from_reading(json_reading(bytes))
    } else if bytes.len() >= 1 && bytes[0] == failure_mark() {
        ResponseView::Failure(lossy_decoding(bytes.skip(1)))
    } else {
        ResponseView::Success(lossy_decoding(bytes))
    }
}

/// The line that shows an answer to a reader.
pub open spec fn response_text(response: ResponseView) -> Seq<char> {
    match response {
        ResponseView::Success(message) => "Success: "@ + message,
        ResponseView::Doc(Some(document)) => "Document: "@ + document,
        ResponseView::Doc(None) => "Document: None"@,
        ResponseView::Failure(message) => "Server responded with failure: "@ + message,
        ResponseView::Ack => "Acknowledged"@,
    }
}

impl Response {
    /// Encodes the answer.
    pub fn as_bytes(&self) -> (bytes: Vec<u8>)
        ensures
            bytes@ == response_encoding(self@),
    {
        match self {
            Response::Success(message) => message.as_str().as_bytes_vec(),
            Response::Doc(Some(document)) => document.to_vec(),
            Response::Doc(None) => {
                let mut bytes = Vec::new();
                bytes.push(0x32u8);
                assert(bytes@ =~= no_document_bytes());
                bytes
            },
            Response::Failure(message) => {
                let mut bytes = Vec::new();
                bytes.push(0x21u8);
                let mut body = message.as_str().as_bytes_vec();
                bytes.append(&mut body);
                assert(bytes@ =~= seq![failure_mark()] + encode_utf8(message@));
                bytes
            },
            Response::Ack => {
                let mut bytes = Vec::new();
                bytes.push(0x41u8);
                bytes.push(0x43u8);
                bytes.push(0x4bu8);
                assert(bytes@ =~= ack_bytes());
                bytes
            },
        }
    }

    /// The answer that bytes between braces make, once they were read as
    /// JSON: the document, or a failure with the reason why they are none.
    pub fn from_reading(read: Result<Document, ValueParseError>) -> (response: Response)
        ensures
            response@ == answer_from_reading(parsed_view(read)),
    {
        match read {
            Ok(document) => Response::Doc(Some(document)),
            Err(error) => {
                let mut message = String::from_str("Deserialization failed for Document: ");
                message.append(error.message.as_str());
                Response::Failure(message)
            },
        }
    }

    /// Reads an answer out of `bytes`; every sequence of bytes is one.
    pub fn from_bytes(bytes: &[u8]) -> (response: Response)
        ensures
            response@ == response_decoding(bytes@),
    {
        let len = bytes.len();
        if len == 3 && bytes[0] == 0x41u8 && bytes[1] == 0x43u8 && bytes[2] == 0x4bu8 {
            assert(bytes@ =~= ack_bytes());
            Response::Ack
        } else if len == 1 && bytes[0] == 0x32u8 {
            assert(bytes@ =~= no_document_bytes());
            Response::Doc(None)
        } else if len >= 1 && bytes[0] == 0x7bu8 && bytes[len - 1] == 0x7du8 {
            Response::from_reading(Document::from_slice(bytes))
        } else if len >= 1 && bytes[0] == 0x21u8 {
            Response::Failure(from_utf8_lossy(slice_subrange(bytes, 1, len)))
        } else {
            Response::Success(from_utf8_lossy(bytes))
        }
    }

    /// The line that shows the answer to a reader.
    pub fn to_text(&self) -> (line: String)
        ensures
            line@ == response_text(self@),
    {
        match self {
            Response::Success(message) => {
                let mut line = String::from_str("Success: ");
                line.append(message.as_str());
                line
            },
            Response::Doc(Some(document)) => {
                let mut line = String::from_str("Document: ");
                line.append(document.as_str());
                line
            },
            Response::Doc(None) => String::from_str("Document: None"),
            Response::Failure(message) => {
                let mut line = String::from_str("Server responded with failure: ");
                line.append(message.as_str());
                line
            },
            Response::Ack => String::from_str("Acknowledged"),
        }
    }
}

} // verus!
