//! Documents: the JSON values that the store keeps.
//!
//! A document is held as its compact JSON text. `serde_json` decides what is
//! JSON and writes the compact text.

use vstd::prelude::*;
use vstd::string::*;
use vstd::utf8::*;

verus! {

/// What `serde_json` makes of `bytes`: the compact text of the JSON value
/// that they hold, or its message on why they hold none.
pub uninterp spec fn json_reading(bytes: Seq<u8>) -> Result<Seq<char>, Seq<char>>;

/// What `serde_json` makes of `text`, read as UTF-8.
pub open spec fn json_parsing(text: Seq<char>) -> Result<Seq<char>, Seq<char>> {
    json_reading(encode_utf8(text))
}

/// Parses `bytes` with `serde_json::from_slice` into a `serde_json::Value`
/// and writes the value, or the error, back as text with `to_string`.
///
/// Claimed of it: the outcome depends on the bytes alone.
#[verifier::external_body]
fn read_json(bytes: &[u8]) -> (read: Result<String, String>)
    ensures
        match read {
            Ok(text) => json_reading(bytes@) == Ok::<Seq<char>, Seq<char>>(text@),
            Err(message) => json_reading(bytes@) == Err::<Seq<char>, Seq<char>>(message@),
        },
{
    match serde_json::from_slice::<serde_json::Value>(bytes) {
        Ok(value) => Ok(value.to_string()),
        Err(error) => Err(error.to_string()),
    }
}

/// Why a text is no document.
#[derive(Debug, Clone, PartialEq, Eq)]
pub struct ValueParseError {
    pub message: String,
}

/// A JSON value, held as its compact text.
#[derive(Debug, Clone, PartialEq, Eq)]
pub struct Document {
    text: String,
}

impl View for Document {
    type V = Seq<char>;

    closed spec fn view(&self) -> Seq<char> {
        self.text@
    }
}

impl Document {
    /// Reads a document from JSON bytes.
    pub fn from_slice(bytes: &[u8]) -> (read: Result<Document, ValueParseError>)
        ensures
            match json_reading(bytes@) {
                Ok(text) => read matches Ok(document) && document@ == text,
                Err(message) => read matches Err(error) && error.message@ == message,
            },
    {
        match read_json(bytes) {
            Ok(text) => Ok(Document { text }),
            Err(message) => Err(ValueParseError { message }),
        }
    }

    /// Reads a document from JSON text.
    pub fn parse(text: &str) -> (read: Result<Document, ValueParseError>)
        ensures
            match json_parsing(text@) {
                Ok(compact) => read matches Ok(document) && document@ == compact,
                Err(message) => read matches Err(error) && error.message@ == message,
            },
    {
        Document::from_slice(text.as_bytes())
    }

    /// The compact JSON text of the document.
    pub fn as_str(&self) -> (text: &str)
        ensures
            text@ == self@,
    {
        self.text.as_str()
    }

    /// The UTF-8 bytes of the compact JSON text.
    pub fn to_vec(&self) -> (bytes: Vec<u8>)
        ensures
            bytes@ == encode_utf8(self@),
    {
        self.text.as_str().as_bytes_vec()
    }

    /// A copy of the document.
    pub fn duplicate(&self) -> (copy: Document)
        ensures
            copy@ == self@,
    {
        Document { text: self.text.clone() }
    }
}

/// What a read value looks like in contracts: the document's text, or the
/// error's message.
pub open spec fn parsed_view(parsed: Result<Document, ValueParseError>) -> Result<
    Seq<char>,
    Seq<char>,
> {
    match parsed {
        Ok(document) => Ok(document@),
        Err(error) => Err(error.message@),
    }
}

} // verus!
