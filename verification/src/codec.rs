//! The byte encoding of a command.
//!
//! A command is its number among the variants as a variable-length integer,
//! then its strings in order, each as its length in bytes (a
//! variable-length integer) and its UTF-8 bytes.

use crate::command::{
    CliCommand, CommandView, CreateCollectionCommandArgs, DeleteCommandArgs, GetCommandArgs,
    InsertCommandArgs,
};
use crate::text::from_utf8;
use crate::varint::{
    lemma_capacity_32, lemma_capacity_64, lemma_varint_prefix_bounds, lemma_varint_round_trip,
    take_u32, take_u64, varint, varint32_prefix, varint64_prefix, write_varint,
};
use vstd::prelude::*;
use vstd::slice::*;
use vstd::string::*;
use vstd::utf8::*;

verus! {

/// Why bytes are not the encoding of a command.
#[derive(Debug, Clone, Copy, PartialEq, Eq, Structural)]
pub enum DecodeError {
    /// An integer is cut short, too long, or too large.
    BadVarint,
    /// The number of the variant names no command.
    UnknownCommand,
    /// A string claims more bytes than there are.
    UnexpectedEnd,
    /// A string's bytes are not UTF-8.
    BadUtf8,
    /// Bytes are left behind the command.
    TrailingBytes,
}

/// Why bytes are no command, in words.
pub open spec fn decode_error_text(error: DecodeError) -> Seq<char> {
    match error {
        DecodeError::BadVarint => "an integer is malformed"@,
        DecodeError::UnknownCommand => "the command is unknown"@,
        DecodeError::UnexpectedEnd => "a string is cut short"@,
        DecodeError::BadUtf8 => "a string is not UTF-8"@,
        DecodeError::TrailingBytes => "bytes follow the command"@,
    }
}

impl DecodeError {
    /// Why bytes are no command, in words.
    pub fn to_text(&self) -> (text: String)
        ensures
            text@ == decode_error_text(*self),
    {
        match self {
            DecodeError::BadVarint => String::from_str("an integer is malformed"),
            DecodeError::UnknownCommand => String::from_str("the command is unknown"),
            DecodeError::UnexpectedEnd => String::from_str("a string is cut short"),
            DecodeError::BadUtf8 => String::from_str("a string is not UTF-8"),
            DecodeError::TrailingBytes => String::from_str("bytes follow the command"),
        }
    }
}

/// The encoding of a string.
pub open spec fn string_encoding(text: Seq<char>) -> Seq<u8> {
    varint(encode_utf8(text).len()) + encode_utf8(text)
}

/// The encoding of a command.
pub open spec fn command_encoding(command: CommandView) -> Seq<u8> {
    match command {
        CommandView::Status => varint(0),
        CommandView::Insert { collection, key, value } => varint(1) + string_encoding(collection)
            + string_encoding(key) + string_encoding(value),
        CommandView::Get { collection, key } => varint(2) + string_encoding(collection)
            + string_encoding(key),
        CommandView::Delete { collection, key } => varint(3) + string_encoding(collection)
            + string_encoding(key),
        CommandView::CreateCollection { name } => varint(4) + string_encoding(name),
        CommandView::DeleteCollection { name } => varint(5) + string_encoding(name),
    }
}

/// The string at the front of `bytes` and the number of bytes it takes.
pub open spec fn string_prefix(bytes: Seq<u8>) -> Result<(Seq<char>, nat), DecodeError> {
    match varint64_prefix(bytes) {
        None => Err(DecodeError::BadVarint),
        Some((len, used)) => {
            if bytes.len() - used < len {
                Err(DecodeError::UnexpectedEnd)
            } else {
                let raw = bytes.subrange(used as int, (used + len) as int);
                if valid_utf8(raw) {
                    Ok((decode_utf8(raw), used + len))
                } else {
                    Err(DecodeError::BadUtf8)
                }
            }
        },
    }
}

/// Two strings, one behind the other, at the front of `bytes`.
pub open spec fn two_strings_prefix(bytes: Seq<u8>) -> Result<
    (Seq<char>, Seq<char>, nat),
    DecodeError,
> {
    match string_prefix(bytes) {
        Err(e) => Err(e),
        Ok((first, used)) => match string_prefix(bytes.skip(used as int)) {
            Err(e) => Err(e),
            Ok((second, more)) => Ok((first, second, used + more)),
        },
    }
}

/// The command whose variant has the number `tag` and whose strings stand at
/// the front of `fields`, and the number of bytes that the strings take.
pub open spec fn fields_prefix(tag: nat, fields: Seq<u8>) -> Result<(CommandView, nat), DecodeError> {
    if tag == 0 {
        Ok((CommandView::Status, 0nat))
    } else if tag == 1 {
        match two_strings_prefix(fields) {
            Err(e) => Err(e),
            Ok((collection, key, used)) => match string_prefix(fields.skip(used as int)) {
                Err(e) => Err(e),
                Ok((value, more)) => Ok((CommandView::Insert { collection, key, value }, used + more)),
            },
        }
    } else if tag == 2 {
        match two_strings_prefix(fields) {
            Err(e) => Err(e),
            Ok((collection, key, used)) => Ok((CommandView::Get { collection, key }, used)),
        }
    } else if tag == 3 {
        match two_strings_prefix(fields) {
            Err(e) => Err(e),
            Ok((collection, key, used)) => Ok((CommandView::Delete { collection, key }, used)),
        }
    } else if tag == 4 {
        match string_prefix(fields) {
            Err(e) => Err(e),
            Ok((name, used)) => Ok((CommandView::CreateCollection { name }, used)),
        }
    } else if tag == 5 {
        match string_prefix(fields) {
            Err(e) => Err(e),
            Ok((name, used)) => Ok((CommandView::DeleteCollection { name }, used)),
        }
    } else {
        Err(DecodeError::UnknownCommand)
    }
}

/// The command at the front of `bytes` and the number of bytes it takes.
pub open spec fn command_prefix(bytes: Seq<u8>) -> Result<(CommandView, nat), DecodeError> {
    match varint32_prefix(bytes) {
        None => Err(DecodeError::BadVarint),
        Some((tag, used)) => match fields_prefix(tag, bytes.skip(used as int)) {
            Err(e) => Err(e),
            Ok((command, more)) => Ok((command, used + more)),
        },
    }
}

/// The command that `bytes` encode: the one at their front, with nothing
/// behind it.
pub open spec fn command_decoding(bytes: Seq<u8>) -> Result<CommandView, DecodeError> {
    match command_prefix(bytes) {
        Err(e) => Err(e),
        Ok((command, used)) => if used == bytes.len() {
            Ok(command)
        } else {
            Err(DecodeError::TrailingBytes)
        },
    }
}

/// Whether the UTF-8 form of `text` has a length that 64 bits can hold, as
/// that of every `String` does.
pub open spec fn text_fits(text: Seq<char>) -> bool {
    encode_utf8(text).len() <= u64::MAX
}

impl CommandView {
    /// Whether each string of the command has a length that 64 bits can hold.
    pub open spec fn fits(self) -> bool {
        match self {
            CommandView::Status => true,
            CommandView::Insert { collection, key, value } => text_fits(collection) && text_fits(
                key,
            ) && text_fits(value),
            CommandView::Get { collection, key } => text_fits(collection) && text_fits(key),
            CommandView::Delete { collection, key } => text_fits(collection) && text_fits(key),
            CommandView::CreateCollection { name } => text_fits(name),
            CommandView::DeleteCollection { name } => text_fits(name),
        }
    }
}

/// A string is read back from the front of its encoding, whatever follows.
pub proof fn lemma_string_round_trip(text: Seq<char>, rest: Seq<u8>)
    requires
        text_fits(text),
    ensures
        string_prefix(string_encoding(text) + rest) == Ok::<(Seq<char>, nat), DecodeError>(
            (text, string_encoding(text).len()),
        ),
{
    let raw = encode_utf8(text);
    let head = varint(raw.len());
    let bytes = string_encoding(text) + rest;
    lemma_capacity_64();
    assert(bytes =~= head + (raw + rest));
    lemma_varint_round_trip(raw.len(), 10, 1, raw + rest);
    assert(bytes.subrange(head.len() as int, (head.len() + raw.len()) as int) =~= raw);
    encode_utf8_valid_utf8(text);
    encode_utf8_decode_utf8(text);
}

/// Two strings are read back from the front of their encodings.
pub proof fn lemma_two_strings_round_trip(first: Seq<char>, second: Seq<char>, rest: Seq<u8>)
    requires
        text_fits(first),
        text_fits(second),
    ensures
        two_strings_prefix(string_encoding(first) + string_encoding(second) + rest) == Ok::<
            (Seq<char>, Seq<char>, nat),
            DecodeError,
        >((first, second, string_encoding(first).len() + string_encoding(second).len())),
{
    let a = string_encoding(first);
    let b = string_encoding(second);
    let bytes = a + b + rest;
    assert(bytes =~= a + (b + rest));
    lemma_string_round_trip(first, b + rest);
    assert(bytes.skip(a.len() as int) =~= b + rest);
    lemma_string_round_trip(second, rest);
}

/// A string that is read takes no more bytes than there are.
pub proof fn lemma_string_prefix_bounds(bytes: Seq<u8>)
    ensures
        string_prefix(bytes) matches Ok((_, used)) ==> 1 <= used <= bytes.len(),
{
    lemma_varint_prefix_bounds(bytes, 10, 1);
}

/// Two strings that are read take no more bytes than there are.
pub proof fn lemma_two_strings_prefix_bounds(bytes: Seq<u8>)
    ensures
        two_strings_prefix(bytes) matches Ok((_, _, used)) ==> 2 <= used <= bytes.len(),
{
    lemma_string_prefix_bounds(bytes);
    if let Ok((_, used)) = string_prefix(bytes) {
        lemma_string_prefix_bounds(bytes.skip(used as int));
    }
}

/// The strings of a command that is read take no more bytes than there are.
pub proof fn lemma_fields_prefix_bounds(tag: nat, fields: Seq<u8>)
    ensures
        fields_prefix(tag, fields) matches Ok((_, used)) ==> used <= fields.len(),
{
    lemma_string_prefix_bounds(fields);
    lemma_two_strings_prefix_bounds(fields);
    if let Ok((_, _, used)) = two_strings_prefix(fields) {
        lemma_string_prefix_bounds(fields.skip(used as int));
    }
}

/// A command that is read takes at least one byte and no more than there
/// are.
pub proof fn lemma_command_prefix_bounds(bytes: Seq<u8>)
    ensures
        command_prefix(bytes) matches Ok((_, used)) ==> 1 <= used <= bytes.len(),
{
    lemma_varint_prefix_bounds(bytes, 5, 15);
    if let Some((tag, used)) = varint32_prefix(bytes) {
        lemma_fields_prefix_bounds(tag, bytes.skip(used as int));
    }
}

/// Three strings are read back from the front of their encodings.
proof fn lemma_three_strings_round_trip(
    first: Seq<char>,
    second: Seq<char>,
    third: Seq<char>,
    rest: Seq<u8>,
)
    requires
        text_fits(first),
        text_fits(second),
        text_fits(third),
    ensures
        ({
            let pair = string_encoding(first) + string_encoding(second);
            let bytes = pair + string_encoding(third) + rest;
            &&& two_strings_prefix(bytes) == Ok::<(Seq<char>, Seq<char>, nat), DecodeError>(
                (first, second, pair.len()),
            )
            &&& string_prefix(bytes.skip(pair.len() as int)) == Ok::<(Seq<char>, nat), DecodeError>(
                (third, string_encoding(third).len()),
            )
        }),
{
    let pair = string_encoding(first) + string_encoding(second);
    let last = string_encoding(third);
    let bytes = pair + last + rest;
    assert(bytes =~= pair + (last + rest));
    lemma_two_strings_round_trip(first, second, last + rest);
    assert(bytes.skip(pair.len() as int) =~= last + rest);
    lemma_string_round_trip(third, rest);
}

/// The number of a command's variant.
pub open spec fn command_tag(command: CommandView) -> nat {
    match command {
        CommandView::Status => 0,
        CommandView::Insert { .. } => 1,
        CommandView::Get { .. } => 2,
        CommandView::Delete { .. } => 3,
        CommandView::CreateCollection { .. } => 4,
        CommandView::DeleteCollection { .. } => 5,
    }
}

/// The encoding of a command's strings.
pub open spec fn fields_encoding(command: CommandView) -> Seq<u8> {
    match command {
        CommandView::Status => Seq::empty(),
        CommandView::Insert { collection, key, value } => string_encoding(collection)
            + string_encoding(key) + string_encoding(value),
        CommandView::Get { collection, key } => string_encoding(collection) + string_encoding(key),
        CommandView::Delete { collection, key } => string_encoding(collection) + string_encoding(
            key,
        ),
        CommandView::CreateCollection { name } => string_encoding(name),
        CommandView::DeleteCollection { name } => string_encoding(name),
    }
}

/// The strings of a command are read back from the front of their encoding.
proof fn lemma_fields_round_trip(command: CommandView, rest: Seq<u8>)
    requires
        command.fits(),
    ensures
        fields_prefix(command_tag(command), fields_encoding(command) + rest) == Ok::<
            (CommandView, nat),
            DecodeError,
        >((command, fields_encoding(command).len())),
{
    match command {
        CommandView::Status => {},
        CommandView::Insert { collection, key, value } => {
            lemma_three_strings_round_trip(collection, key, value, rest);
        },
        CommandView::Get { collection, key } => {
            lemma_two_strings_round_trip(collection, key, rest);
        },
        CommandView::Delete { collection, key } => {
            lemma_two_strings_round_trip(collection, key, rest);
        },
        CommandView::CreateCollection { name } => {
            lemma_string_round_trip(name, rest);
        },
        CommandView::DeleteCollection { name } => {
            lemma_string_round_trip(name, rest);
        },
    }
}

/// A command is read back from the front of its encoding, whatever follows.
pub proof fn lemma_command_prefix_round_trip(command: CommandView, rest: Seq<u8>)
    requires
        command.fits(),
    ensures
        command_prefix(command_encoding(command) + rest) == Ok::<(CommandView, nat), DecodeError>(
            (command, command_encoding(command).len()),
        ),
{
    let tag = varint(command_tag(command));
    let fields = fields_encoding(command) + rest;
    let bytes = command_encoding(command) + rest;
    assert(command_encoding(command) =~= tag + fields_encoding(command));
    assert(bytes =~= tag + fields);
    lemma_capacity_32();
    lemma_varint_round_trip(command_tag(command), 5, 15, fields);
    assert(bytes.skip(tag.len() as int) =~= fields);
    lemma_fields_round_trip(command, rest);
}

/// Decoding undoes encoding: every command, empty and non-ASCII strings
/// included, is read back from its encoding.
pub proof fn law_command_round_trip(command: CommandView)
    requires
        command.fits(),
    ensures
        command_decoding(command_encoding(command)) == Ok::<CommandView, DecodeError>(command),
{
    lemma_command_prefix_round_trip(command, Seq::empty());
    assert(command_encoding(command) + Seq::<u8>::empty() =~= command_encoding(command));
}

/// Appends the encoding of `text` to `out`.
fn push_string(out: &mut Vec<u8>, text: &str)
    ensures
        final(out)@ == old(out)@ + string_encoding(text@),
        text_fits(text@),
{
    let mut raw = text.as_bytes_vec();
    let mut head = write_varint(raw.len() as u64);
    out.append(&mut head);
    out.append(&mut raw);
    assert(final(out)@ =~= old(out)@ + string_encoding(text@));
}

/// Reads the string at the front of `bytes` and hands back what follows it.
fn take_string(bytes: &[u8]) -> (taken: Result<(String, &[u8]), DecodeError>)
    ensures
        match string_prefix(bytes@) {
            Ok((text, used)) => taken matches Ok((s, rest)) && s@ == text && rest@ == bytes@.skip(
                used as int,
            ),
            Err(e) => taken matches Err(err) && err == e,
        },
{
    match take_u64(bytes) {
        None => Err(DecodeError::BadVarint),
        Some((len, rest)) => {
            if (rest.len() as u64) < len {
                Err(DecodeError::UnexpectedEnd)
            } else {
                let n = len as usize;
                let raw = slice_subrange(rest, 0, n);
                let tail = slice_subrange(rest, n, rest.len());
                proof {
                    let used = varint64_prefix(bytes@).unwrap().1;
                    lemma_varint_prefix_bounds(bytes@, 10, 1);
                    assert(raw@ =~= bytes@.subrange(used as int, (used + len) as int));
                    assert(tail@ =~= bytes@.skip((used + len) as int));
                }
                match from_utf8(raw) {
                    Some(text) => Ok((text, tail)),
                    None => Err(DecodeError::BadUtf8),
                }
            }
        },
    }
}

/// Reads two strings, one behind the other, and hands back what follows them.
fn take_two_strings(bytes: &[u8]) -> (taken: Result<(String, String, &[u8]), DecodeError>)
    ensures
        match two_strings_prefix(bytes@) {
            Ok((first, second, used)) => taken matches Ok((a, b, rest)) && a@ == first && b@
                == second && rest@ == bytes@.skip(used as int),
            Err(e) => taken matches Err(err) && err == e,
        },
{
    match take_string(bytes) {
        Err(e) => Err(e),
        Ok((first, rest)) => match take_string(rest) {
            Err(e) => Err(e),
            Ok((second, tail)) => {
                proof {
                    let used = string_prefix(bytes@)->Ok_0.1;
                    let more = string_prefix(bytes@.skip(used as int))->Ok_0.1;
                    lemma_string_prefix_bounds(bytes@);
                    lemma_string_prefix_bounds(bytes@.skip(used as int));
                    assert(tail@ =~= bytes@.skip((used + more) as int));
                }
                Ok((first, second, tail))
            },
        },
    }
}

/// Reads the strings of the command whose variant has the number `tag` and
/// hands back what follows them.
fn take_fields(tag: u32, fields: &[u8]) -> (taken: Result<(CliCommand, &[u8]), DecodeError>)
    ensures
        match fields_prefix(tag as nat, fields@) {
            Ok((command, used)) => taken matches Ok((c, rest)) && c@ == command && rest@
                == fields@.skip(used as int),
            Err(e) => taken matches Err(err) && err == e,
        },
{
    if tag == 0 {
        assert(fields@.skip(0) =~= fields@);
        Ok((CliCommand::Status, fields))
    } else if tag == 1 {
        match take_two_strings(fields) {
            Err(e) => Err(e),
            Ok((collection, key, rest)) => match take_string(rest) {
                Err(e) => Err(e),
                Ok((value, tail)) => {
                    proof {
                        let used = two_strings_prefix(fields@)->Ok_0.2;
                        let more = string_prefix(fields@.skip(used as int))->Ok_0.1;
                        lemma_two_strings_prefix_bounds(fields@);
                        lemma_string_prefix_bounds(fields@.skip(used as int));
                        assert(tail@ =~= fields@.skip((used + more) as int));
                    }
                    Ok((CliCommand::Insert(InsertCommandArgs { collection, key, value }), tail))
                },
            },
        }
    } else if tag == 2 {
        match take_two_strings(fields) {
            Err(e) => Err(e),
            Ok((collection, key, rest)) => Ok(
                (CliCommand::Get(GetCommandArgs { collection, key }), rest),
            ),
        }
    } else if tag == 3 {
        match take_two_strings(fields) {
            Err(e) => Err(e),
            Ok((collection, key, rest)) => Ok(
                (CliCommand::Delete(DeleteCommandArgs { collection, key }), rest),
            ),
        }
    } else if tag == 4 {
        match take_string(fields) {
            Err(e) => Err(e),
            Ok((name, rest)) => Ok(
                (CliCommand::CreateCollection(CreateCollectionCommandArgs { name }), rest),
            ),
        }
    } else if tag == 5 {
        match take_string(fields) {
            Err(e) => Err(e),
            Ok((name, rest)) => Ok(
                (CliCommand::DeleteCollection(CreateCollectionCommandArgs { name }), rest),
            ),
        }
    } else {
        Err(DecodeError::UnknownCommand)
    }
}

impl CliCommand {
    /// Encodes the command.
    pub fn as_bytes(&self) -> (bytes: Vec<u8>)
        ensures
            bytes@ == command_encoding(self@),
            self@.fits(),
    {
        match self {
            CliCommand::Status => write_varint(0),
            CliCommand::Insert(args) => {
                let mut out = write_varint(1);
                push_string(&mut out, args.collection.as_str());
                push_string(&mut out, args.key.as_str());
                push_string(&mut out, args.value.as_str());
                out
            },
            CliCommand::Get(args) => {
                let mut out = write_varint(2);
                push_string(&mut out, args.collection.as_str());
                push_string(&mut out, args.key.as_str());
                out
            },
            CliCommand::Delete(args) => {
                let mut out = write_varint(3);
                push_string(&mut out, args.collection.as_str());
                push_string(&mut out, args.key.as_str());
                out
            },
            CliCommand::CreateCollection(args) => {
                let mut out = write_varint(4);
                push_string(&mut out, args.name.as_str());
                out
            },
            CliCommand::DeleteCollection(args) => {
                let mut out = write_varint(5);
                push_string(&mut out, args.name.as_str());
                out
            },
        }
    }

    /// Reads the command at the front of `bytes` and hands back what follows
    /// it.
    pub fn take_from_bytes(bytes: &[u8]) -> (taken: Result<(CliCommand, &[u8]), DecodeError>)
        ensures
            match command_prefix(bytes@) {
                Ok((command, used)) => taken matches Ok((c, rest)) && c@ == command && rest@
                    == bytes@.skip(used as int) && 1 <= used <= bytes@.len(),
                Err(e) => taken matches Err(err) && err == e,
            },
    {
        proof {
            lemma_command_prefix_bounds(bytes@);
            lemma_varint_prefix_bounds(bytes@, 5, 15);
        }
        match take_u32(bytes) {
            None => Err(DecodeError::BadVarint),
            Some((tag, fields)) => {
                let ghost used = varint32_prefix(bytes@).unwrap().1;
                match take_fields(tag, fields) {
                    Err(e) => Err(e),
                    Ok((command, rest)) => {
                        proof {
                            let more = fields_prefix(tag as nat, fields@)->Ok_0.1;
                            assert(rest@ =~= bytes@.skip((used + more) as int));
                        }
                        Ok((command, rest))
                    },
                }
            },
        }
    }

    /// Decodes a command: the one that `bytes` encode, or why they encode
    /// none.
    pub fn from_bytes(bytes: &[u8]) -> (decoded: Result<CliCommand, DecodeError>)
        ensures
            match command_decoding(bytes@) {
                Ok(command) => decoded matches Ok(c) && c@ == command,
                Err(e) => decoded matches Err(err) && err == e,
            },
    {
        match CliCommand::take_from_bytes(bytes) {
            Err(e) => Err(e),
            Ok((command, rest)) => {
                if rest.len() == 0 {
                    Ok(command)
                } else {
                    Err(DecodeError::TrailingBytes)
                }
            },
        }
    }
}

} // verus!
