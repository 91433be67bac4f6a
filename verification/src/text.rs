//! Conversions between bytes and text that the standard library performs.

use vstd::prelude::*;
use vstd::utf8::*;

verus! {

/// The text that `String::from_utf8_lossy` makes of `bytes`: their decoding,
/// with U+FFFD in place of whatever is not UTF-8.
pub uninterp spec fn lossy_decoding(bytes: Seq<u8>) -> Seq<char>;

/// The text that the `Debug` format of `str` makes of `text`: `text` between
/// double quotes, with quotes, backslashes and unprintable characters
/// escaped.
pub uninterp spec fn debug_quoting(text: Seq<char>) -> Seq<char>;

/// Decodes `bytes` with `core::str::from_utf8`.
///
/// Claimed of it: it accepts exactly the well-formed UTF-8 sequences, and the
/// text it returns is their decoding.
#[verifier::external_body]
pub(crate) fn from_utf8(bytes: &[u8]) -> (decoded: Option<String>)
    ensures
        match decoded {
            Some(text) => valid_utf8(bytes@) && text@ == decode_utf8(bytes@),
            None => !valid_utf8(bytes@),
        },
{
    match core::str::from_utf8(bytes) {
        Ok(text) => Some(text.to_string()),
        Err(_) => None,
    }
}

/// Decodes `bytes` with `String::from_utf8_lossy`.
///
/// Claimed of it: the result depends on the bytes alone, and well-formed
/// UTF-8 is decoded unchanged.
#[verifier::external_body]
pub(crate) fn from_utf8_lossy(bytes: &[u8]) -> (text: String)
    ensures
        text@ == lossy_decoding(bytes@),
        valid_utf8(bytes@) ==> text@ == decode_utf8(bytes@),
{
    String::from_utf8_lossy(bytes).into_owned()
}

/// Formats `text` with the `Debug` format of `str`.
///
/// Claimed of it: the result depends on the text alone.
#[verifier::external_body]
pub(crate) fn debug_quoted(text: &str) -> (quoted: String)
    ensures
        quoted@ == debug_quoting(text@),
{
    format!("{:?}", text)
}

} // verus!
