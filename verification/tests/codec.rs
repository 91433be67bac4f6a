use oxidoc::codec::DecodeError;
use oxidoc::command::{
    CliCommand, CreateCollectionCommandArgs, DeleteCommandArgs, GetCommandArgs, InsertCommandArgs,
};

fn insert(collection: &str, key: &str, value: &str) -> CliCommand {
    CliCommand::Insert(InsertCommandArgs {
        collection: collection.to_string(),
        key: key.to_string(),
        value: value.to_string(),
    })
}

fn every_variant(text: &str) -> Vec<CliCommand> {
    vec![
        CliCommand::Status,
        insert(text, text, text),
        CliCommand::Get(GetCommandArgs { collection: text.to_string(), key: text.to_string() }),
        CliCommand::Delete(DeleteCommandArgs {
            collection: text.to_string(),
            key: text.to_string(),
        }),
        CliCommand::CreateCollection(CreateCollectionCommandArgs { name: text.to_string() }),
        CliCommand::DeleteCollection(CreateCollectionCommandArgs { name: text.to_string() }),
    ]
}

#[test]
fn serializes_and_deserializes_cli_command() {
    let original = CliCommand::Insert(InsertCommandArgs {
        collection: "test_collection".to_string(),
        key: "test_key".to_string(),
        value: "test_value".to_string(),
    });
    let bytes = original.as_bytes();
    let deserialized = CliCommand::from_bytes(&bytes).unwrap();
    assert_eq!(original, deserialized);
}

#[test]
fn every_variant_round_trips() {
    for text in ["", "plain", "héllo wörld ✓ 日本語 🦀", "a\0b\n\"quoted\""] {
        for command in every_variant(text) {
            let bytes = command.as_bytes();
            assert_eq!(CliCommand::from_bytes(&bytes), Ok(command));
        }
    }
}

#[test]
fn encoding_is_tag_then_length_prefixed_strings() {
    assert_eq!(CliCommand::Status.as_bytes(), vec![0]);
    assert_eq!(
        insert("users", "1", "{\"name\":\"a\"}").as_bytes(),
        vec![
            1, 5, 117, 115, 101, 114, 115, 1, 49, 12, 123, 34, 110, 97, 109, 101, 34, 58, 34, 97,
            34, 125
        ]
    );
    let created =
        CliCommand::CreateCollection(CreateCollectionCommandArgs { name: "users".to_string() });
    assert_eq!(created.as_bytes(), vec![4, 5, 117, 115, 101, 114, 115]);
    let deleted =
        CliCommand::DeleteCollection(CreateCollectionCommandArgs { name: String::new() });
    assert_eq!(deleted.as_bytes(), vec![5, 0]);
}

#[test]
fn length_of_a_long_string_takes_two_bytes() {
    let name = "x".repeat(300);
    let bytes = CliCommand::CreateCollection(CreateCollectionCommandArgs { name: name.clone() })
        .as_bytes();
    assert_eq!(&bytes[..3], &[4, 0xac, 0x02]);
    assert_eq!(bytes.len(), 303);
    assert_eq!(
        CliCommand::from_bytes(&bytes),
        Ok(CliCommand::CreateCollection(CreateCollectionCommandArgs { name }))
    );
}

#[test]
fn length_counts_bytes_not_characters() {
    let bytes =
        CliCommand::CreateCollection(CreateCollectionCommandArgs { name: "é".to_string() })
            .as_bytes();
    assert_eq!(bytes, vec![4, 2, 0xc3, 0xa9]);
}

#[test]
fn take_from_bytes_hands_back_the_rest() {
    let mut bytes = insert("c", "k", "v").as_bytes();
    bytes.extend_from_slice(&[9, 8, 7]);
    let (command, rest) = CliCommand::take_from_bytes(&bytes).unwrap();
    assert_eq!(command, insert("c", "k", "v"));
    assert_eq!(rest, &[9, 8, 7]);
}

#[test]
fn empty_input_is_a_bad_integer() {
    assert_eq!(CliCommand::from_bytes(&[]), Err(DecodeError::BadVarint));
}

#[test]
fn overlong_tag_is_a_bad_integer() {
    assert_eq!(
        CliCommand::from_bytes(&[0x80, 0x80, 0x80, 0x80, 0x80, 0x00]),
        Err(DecodeError::BadVarint)
    );
    assert_eq!(
        CliCommand::from_bytes(&[0xff, 0xff, 0xff, 0xff, 0x10]),
        Err(DecodeError::BadVarint)
    );
    assert_eq!(CliCommand::from_bytes(&[0x80]), Err(DecodeError::BadVarint));
}

#[test]
fn tag_may_be_written_with_leading_zero_groups() {
    assert_eq!(CliCommand::from_bytes(&[0x80, 0x00]), Ok(CliCommand::Status));
}

#[test]
fn unknown_tag_is_refused() {
    assert_eq!(CliCommand::from_bytes(&[6]), Err(DecodeError::UnknownCommand));
    assert_eq!(
        CliCommand::from_bytes(&[0xff, 0xff, 0xff, 0xff, 0x0f]),
        Err(DecodeError::UnknownCommand)
    );
}

#[test]
fn missing_length_is_a_bad_integer() {
    assert_eq!(CliCommand::from_bytes(&[4]), Err(DecodeError::BadVarint));
    assert_eq!(CliCommand::from_bytes(&[2, 1, 97]), Err(DecodeError::BadVarint));
}

#[test]
fn short_string_is_an_unexpected_end() {
    assert_eq!(CliCommand::from_bytes(&[4, 5, 117, 115]), Err(DecodeError::UnexpectedEnd));
    assert_eq!(
        CliCommand::from_bytes(&[4, 0xff, 0xff, 0xff, 0xff, 0xff, 0xff, 0xff, 0xff, 0xff, 0x01]),
        Err(DecodeError::UnexpectedEnd)
    );
}

#[test]
fn invalid_utf8_is_refused() {
    assert_eq!(CliCommand::from_bytes(&[4, 2, 0xc3, 0x28]), Err(DecodeError::BadUtf8));
    assert_eq!(CliCommand::from_bytes(&[4, 1, 0xff]), Err(DecodeError::BadUtf8));
}

#[test]
fn trailing_bytes_are_refused() {
    assert_eq!(CliCommand::from_bytes(&[0, 0]), Err(DecodeError::TrailingBytes));
    let mut bytes = insert("c", "k", "v").as_bytes();
    bytes.push(0);
    assert_eq!(CliCommand::from_bytes(&bytes), Err(DecodeError::TrailingBytes));
}

#[test]
fn first_error_wins() {
    assert_eq!(CliCommand::from_bytes(&[1, 1, 97, 1, 0xff, 9]), Err(DecodeError::BadUtf8));
}

#[test]
fn decode_errors_say_what_is_wrong() {
    assert_eq!(DecodeError::BadVarint.to_text(), "an integer is malformed");
    assert_eq!(DecodeError::UnknownCommand.to_text(), "the command is unknown");
    assert_eq!(DecodeError::UnexpectedEnd.to_text(), "a string is cut short");
    assert_eq!(DecodeError::BadUtf8.to_text(), "a string is not UTF-8");
    assert_eq!(DecodeError::TrailingBytes.to_text(), "bytes follow the command");
}

#[test]
fn encoding_is_what_postcard_writes_for_the_same_fields() {
    assert_eq!(CliCommand::Status.as_bytes(), postcard::to_allocvec(&0u32).unwrap());
    assert_eq!(
        insert("users", "ключ", "{\"name\":\"a\"}").as_bytes(),
        postcard::to_allocvec(&(1u32, "users", "ключ", "{\"name\":\"a\"}")).unwrap()
    );
    let long = "y".repeat(20_000);
    assert_eq!(
        CliCommand::Get(GetCommandArgs { collection: long.clone(), key: String::new() })
            .as_bytes(),
        postcard::to_allocvec(&(2u32, long.as_str(), "")).unwrap()
    );
    assert_eq!(
        CliCommand::DeleteCollection(CreateCollectionCommandArgs { name: "n".to_string() })
            .as_bytes(),
        postcard::to_allocvec(&(5u32, "n")).unwrap()
    );
}

#[test]
fn decoding_reads_what_postcard_writes() {
    let bytes = postcard::to_allocvec(&(3u32, "coll", "k€y")).unwrap();
    assert_eq!(
        CliCommand::from_bytes(&bytes),
        Ok(CliCommand::Delete(DeleteCommandArgs {
            collection: "coll".to_string(),
            key: "k€y".to_string(),
        }))
    );
    let fields: (u32, String, String, String) =
        postcard::from_bytes(&insert("a", "", "c").as_bytes()).unwrap();
    assert_eq!(fields, (1, "a".to_string(), String::new(), "c".to_string()));
}
