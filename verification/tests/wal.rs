use oxidoc::command::{
    CliCommand, CreateCollectionCommandArgs, DeleteCommandArgs, GetCommandArgs, InsertCommandArgs,
};
use oxidoc::database::Database;
use oxidoc::executor::execute_command;
use oxidoc::wal::{split_entry, write_record, LogEnd, WalError, WAL};

fn create(name: &str) -> CliCommand {
    CliCommand::CreateCollection(CreateCollectionCommandArgs { name: name.into() })
}

fn drop_collection(name: &str) -> CliCommand {
    CliCommand::DeleteCollection(CreateCollectionCommandArgs { name: name.into() })
}

fn insert(collection: &str, key: &str, value: &str) -> CliCommand {
    CliCommand::Insert(InsertCommandArgs {
        collection: collection.into(),
        key: key.into(),
        value: value.into(),
    })
}

fn delete(collection: &str, key: &str) -> CliCommand {
    CliCommand::Delete(DeleteCommandArgs { collection: collection.into(), key: key.into() })
}

fn get(collection: &str, key: &str) -> CliCommand {
    CliCommand::Get(GetCommandArgs { collection: collection.into(), key: key.into() })
}

fn log_of(commands: &[CliCommand]) -> Vec<u8> {
    let mut wal = WAL::new();
    let mut log = Vec::new();
    for command in commands {
        wal.append(command, &mut log).unwrap();
    }
    log
}

fn text_at(db: &Database, collection: &str, key: &str) -> Option<String> {
    db.get(collection, key).map(|document| document.as_str().to_string())
}

#[test]
fn test_write_single_entry() {
    let mut log = Vec::new();
    let mut wal = WAL::new();
    let cmd = create("users");

    assert!(wal.append(&cmd, &mut log).is_ok());
    assert_eq!(wal.sequence(), 1);
}

#[test]
fn test_write_multiple_entries() {
    let mut log = Vec::new();
    let mut wal = WAL::new();

    wal.append(&create("users"), &mut log).unwrap();
    wal.append(&create("posts"), &mut log).unwrap();
    wal.append(&insert("users", "1", "alice"), &mut log).unwrap();

    assert_eq!(wal.sequence(), 3);
}

#[test]
fn test_recovery_empty_wal() {
    let recovery = WAL::recover(&[]);
    assert_eq!(recovery.next_sequence, 0);
    assert!(recovery.commands.is_empty());
    assert_eq!(recovery.end, LogEnd::Complete);
}

#[test]
fn test_recovery_with_data() {
    let mut log = Vec::new();
    {
        let mut wal = WAL::new();
        wal.append(&create("users"), &mut log).unwrap();
        wal.append(&insert("users", "1", "alice"), &mut log).unwrap();
        wal.append(&delete("users", "1"), &mut log).unwrap();
    }

    let recovery = WAL::recover(&log);
    let recovered = recovery.commands;

    assert_eq!(recovery.next_sequence, 3);
    assert_eq!(recovered.len(), 3);
    assert_eq!(recovered[0], create("users"));
    assert_eq!(recovered[1], insert("users", "1", "alice"));
}

#[test]
fn test_recovery_then_append() {
    let mut log = Vec::new();
    {
        let mut wal = WAL::new();
        wal.append(&create("test"), &mut log).unwrap();
    }

    let next_seq = WAL::recover(&log).next_sequence;
    let mut wal = WAL::resume(next_seq);
    wal.append(&insert("test", "1", "data"), &mut log).unwrap();

    let all = WAL::recover(&log);
    assert_eq!(all.commands.len(), 2);
    assert_eq!(all.next_sequence, 2);
}

#[test]
#[allow(non_snake_case)]
fn test_all_CliCommand_types() {
    let commands = vec![
        create("coll1"),
        insert("coll1", "doc1", "\u{1}\u{2}\u{3}\u{4}"),
        delete("coll1", "doc1"),
        drop_collection("coll1"),
    ];

    let log = log_of(&commands);
    let recovered = WAL::recover(&log).commands;

    assert_eq!(recovered, commands);
}

#[test]
fn record_is_length_then_sequence_command_checksum() {
    assert_eq!(log_of(&[CliCommand::Status]), vec![7, 0, 0, 0, 0, 0, 141, 223, 139, 144, 13]);
    assert_eq!(
        log_of(&[create("test")]),
        vec![12, 0, 0, 0, 0, 4, 4, 116, 101, 115, 116, 229, 200, 163, 183, 2]
    );
}

#[test]
fn second_record_carries_sequence_one() {
    let log = log_of(&[CliCommand::Status, insert("users", "1", "{\"name\":\"a\"}")]);
    assert_eq!(
        &log[11..],
        &[
            28, 0, 0, 0, 1, 1, 5, 117, 115, 101, 114, 115, 1, 49, 12, 123, 34, 110, 97, 109, 101,
            34, 58, 34, 97, 34, 125, 253, 200, 248, 222, 10
        ]
    );
}

#[test]
fn checksum_is_crc32_of_the_command_bytes() {
    let command = insert("a", "b", "c");
    let log = log_of(&[command.clone()]);
    let body = command.as_bytes();
    let sum = crc32fast::hash(&body);
    let mut expected = vec![0u8];
    expected.extend_from_slice(&body);
    expected.extend_from_slice(&postcard::to_allocvec(&sum).unwrap());
    assert_eq!(&log[..4], &(expected.len() as u32).to_le_bytes());
    assert_eq!(&log[4..], &expected[..]);
}

#[test]
fn sequence_is_written_as_a_variable_length_integer() {
    let mut wal = WAL::resume(300);
    let mut log = Vec::new();
    wal.append(&CliCommand::Status, &mut log).unwrap();
    assert_eq!(&log[..7], &[8, 0, 0, 0, 0xac, 0x02, 0]);
    assert_eq!(wal.sequence(), 301);
    assert_eq!(WAL::recover(&log).next_sequence, 301);
}

#[test]
fn replay_rebuilds_the_store_that_the_commands_build() {
    let commands = vec![
        create("users"),
        insert("users", "1", "{\"name\":\"a\"}"),
        insert("users", "2", "{\"name\":\"b\"}"),
        insert("posts", "p", "[1, 2, 3]"),
        insert("users", "2", "not json"),
        get("users", "1"),
        delete("users", "1"),
        CliCommand::Status,
        create("empty"),
        drop_collection("posts"),
        insert("users", "3", "null"),
    ];
    let mut direct = Database::initialize();
    for command in &commands {
        let _ = execute_command(command.clone(), &mut direct);
    }

    let log = log_of(&commands);
    let mut replayed = Database::initialize();
    let (next_sequence, end) = WAL::restore(&log, &mut replayed);

    assert_eq!(next_sequence, commands.len() as u64);
    assert_eq!(end, LogEnd::Complete);
    for collection in ["users", "posts", "empty", "missing"] {
        for key in ["1", "2", "3", "p"] {
            assert_eq!(text_at(&replayed, collection, key), text_at(&direct, collection, key));
        }
    }
    assert_eq!(text_at(&replayed, "users", "1"), None);
    assert_eq!(text_at(&replayed, "users", "2"), Some("{\"name\":\"b\"}".to_string()));
    assert_eq!(text_at(&replayed, "users", "3"), Some("null".to_string()));
    assert_eq!(text_at(&replayed, "posts", "p"), None);
    assert!(replayed.safe_delete_collection("empty"));
    assert!(direct.safe_delete_collection("empty"));
    assert!(!replayed.safe_delete_collection("posts"));
}

#[test]
fn flipped_byte_in_a_command_stops_recovery_before_that_entry() {
    let commands = [create("users"), insert("users", "1", "alice"), delete("users", "1")];
    let log = log_of(&commands);
    let first = log_of(&commands[..1]).len();
    let second = log_of(&commands[..2]).len();
    // The command of the second record begins behind its length and its
    // sequence number.
    for at in (first + 5)..(second - 5) {
        let mut damaged = log.clone();
        damaged[at] ^= 0xff;
        let recovery = WAL::recover(&damaged);
        assert_eq!(recovery.commands, vec![create("users")]);
        assert_eq!(recovery.next_sequence, 1);
        assert_eq!(recovery.end, LogEnd::Corrupted);
    }
}

#[test]
fn flipped_byte_in_the_first_entry_recovers_nothing() {
    let log = log_of(&[create("test")]);
    let mut damaged = log.clone();
    damaged[8] = 0xff;
    let mut db = Database::initialize();
    let (next_sequence, end) = WAL::restore(&damaged, &mut db);
    assert_eq!(next_sequence, 0);
    assert_eq!(end, LogEnd::Corrupted);
    assert!(!db.safe_delete_collection("test"));
}

#[test]
fn changed_checksum_stops_recovery() {
    let mut log = log_of(&[create("users"), create("posts")]);
    let last = log.len() - 1;
    log[last] ^= 0x01;
    let recovery = WAL::recover(&log);
    assert_eq!(recovery.commands, vec![create("users")]);
    assert_eq!(recovery.end, LogEnd::Corrupted);
}

#[test]
fn records_behind_a_corrupted_one_are_discarded() {
    let commands = [create("a"), create("b"), create("c")];
    let mut log = log_of(&commands);
    let first = log_of(&commands[..1]).len();
    log[first + 6] ^= 0x20;
    let recovery = WAL::recover(&log);
    assert_eq!(recovery.commands, vec![create("a")]);
    assert_eq!(recovery.next_sequence, 1);
}

#[test]
fn log_truncated_in_a_record_recovers_the_complete_records() {
    let commands = [create("users"), insert("users", "1", "alice"), delete("users", "1")];
    let log = log_of(&commands);
    let second = log_of(&commands[..2]).len();
    for len in (second + 1)..log.len() {
        let recovery = WAL::recover(&log[..len]);
        assert_eq!(recovery.commands, commands[..2].to_vec());
        assert_eq!(recovery.next_sequence, 2);
        assert_eq!(recovery.end, LogEnd::Truncated);
    }
    let whole = WAL::recover(&log[..second]);
    assert_eq!(whole.commands, commands[..2].to_vec());
    assert_eq!(whole.end, LogEnd::Complete);
}

#[test]
fn length_prefix_with_short_payload_is_a_clean_end() {
    let mut log = log_of(&[create("users")]);
    log.extend_from_slice(&[10, 0, 0, 0, 1, 2, 3]);
    let recovery = WAL::recover(&log);
    assert_eq!(recovery.commands, vec![create("users")]);
    assert_eq!(recovery.next_sequence, 1);
    assert_eq!(recovery.end, LogEnd::Truncated);
}

#[test]
fn bytes_behind_the_checksum_of_an_entry_are_ignored() {
    let mut log = vec![9, 0, 0, 0];
    log.extend_from_slice(&[0, 0, 141, 223, 139, 144, 13, 0xaa, 0xbb]);
    let recovery = WAL::recover(&log);
    assert_eq!(recovery.commands, vec![CliCommand::Status]);
    assert_eq!(recovery.end, LogEnd::Complete);
}

#[test]
fn entry_with_the_last_sequence_number_is_not_valid() {
    let mut entry = vec![0xff, 0xff, 0xff, 0xff, 0xff, 0xff, 0xff, 0xff, 0xff, 0x01];
    entry.extend_from_slice(&[0, 141, 223, 139, 144, 13]);
    let mut log = (entry.len() as u32).to_le_bytes().to_vec();
    log.extend_from_slice(&entry);
    let recovery = WAL::recover(&log);
    assert!(recovery.commands.is_empty());
    assert_eq!(recovery.next_sequence, 0);
    assert_eq!(recovery.end, LogEnd::Corrupted);
}

#[test]
fn recovered_sequence_is_one_more_than_the_last_entry() {
    let mut wal = WAL::resume(41);
    let mut log = Vec::new();
    wal.append(&CliCommand::Status, &mut log).unwrap();
    assert_eq!(WAL::recover(&log).next_sequence, 42);
    let mut last = WAL::resume(u64::MAX - 1);
    let mut log = Vec::new();
    last.append(&CliCommand::Status, &mut log).unwrap();
    assert_eq!(last.sequence(), u64::MAX);
    assert_eq!(WAL::recover(&log).next_sequence, u64::MAX);
}

#[test]
fn append_fails_when_the_sequence_numbers_are_used_up() {
    let mut wal = WAL::resume(u64::MAX);
    let mut log = vec![1, 2, 3];
    assert_eq!(wal.append(&CliCommand::Status, &mut log), Err(WalError::SequenceExhausted));
    assert_eq!(log, vec![1, 2, 3]);
    assert_eq!(wal.sequence(), u64::MAX);
}

#[test]
fn next_record_writes_nothing_and_keeps_the_number() {
    let mut wal = WAL::resume(5);
    let record = wal.next_record(&create("users")).unwrap();
    assert_eq!(wal.sequence(), 5);
    let mut log = Vec::new();
    wal.append(&create("users"), &mut log).unwrap();
    assert_eq!(log, record);
    assert_eq!(wal.sequence(), 6);
    wal.advance();
    assert_eq!(wal.sequence(), 7);
    assert_eq!(
        WAL::resume(u64::MAX).next_record(&create("users")),
        Err(WalError::SequenceExhausted)
    );
}

#[test]
fn wal_errors_say_what_is_wrong() {
    assert_eq!(WalError::SequenceExhausted.to_text(), "the sequence numbers are used up");
    assert_eq!(WalError::EntryTooLarge.to_text(), "the entry is too large");
}

#[test]
fn large_value_is_logged_and_recovered() {
    let large = "*".repeat(1000);
    let command = insert("test", "big", &large);
    let log = log_of(&[command.clone()]);
    assert_eq!(log.len(), 4 + 1 + (1 + 5 + 4 + 2 + 1000) + 5);
    assert_eq!(WAL::recover(&log).commands, vec![command]);
}

#[test]
fn record_is_made_of_sequence_body_and_checksum() {
    assert_eq!(
        write_record(1, &[0xaa, 0xbb], 0x8f),
        Ok(vec![5, 0, 0, 0, 1, 0xaa, 0xbb, 0x8f, 0x01])
    );
    assert_eq!(write_record(0, &[], 0), Ok(vec![2, 0, 0, 0, 0, 0]));
    assert_eq!(
        write_record(u64::MAX - 1, &[7], u32::MAX),
        Ok(vec![
            16, 0, 0, 0, 0xfe, 0xff, 0xff, 0xff, 0xff, 0xff, 0xff, 0xff, 0xff, 0x01, 7, 0xff,
            0xff, 0xff, 0xff, 0x0f
        ])
    );
    assert_eq!(write_record(u64::MAX, &[7], 0), Err(WalError::SequenceExhausted));
}

#[test]
fn entry_is_split_into_sequence_command_and_checksum() {
    assert_eq!(split_entry(&[3, 0, 9]), Some((3, CliCommand::Status, 9)));
    assert_eq!(
        split_entry(&[0xac, 0x02, 4, 1, b'c', 0xff, 0xff, 0xff, 0xff, 0x0f, 1, 2]),
        Some((300, create("c"), u32::MAX))
    );
    assert_eq!(split_entry(&[]), None);
    assert_eq!(split_entry(&[3]), None);
    assert_eq!(split_entry(&[3, 0]), None);
    assert_eq!(split_entry(&[3, 9, 9]), None);
    assert_eq!(split_entry(&[3, 0, 0xff, 0xff, 0xff, 0xff, 0x10]), None);
}

#[test]
fn entry_with_a_wrong_checksum_is_read_but_not_recovered() {
    let entry = [0, 0, 5];
    assert_eq!(split_entry(&entry), Some((0, CliCommand::Status, 5)));
    let mut log = vec![3, 0, 0, 0];
    log.extend_from_slice(&entry);
    assert!(WAL::recover(&log).commands.is_empty());
}

#[test]
fn entry_is_what_postcard_writes_for_the_same_fields() {
    let mut wal = WAL::resume(70_000);
    let mut log = Vec::new();
    wal.append(&create("users"), &mut log).unwrap();
    let sum = crc32fast::hash(&create("users").as_bytes());
    let entry = postcard::to_allocvec(&(70_000u64, 4u32, "users", sum)).unwrap();
    assert_eq!(&log[..4], &(entry.len() as u32).to_le_bytes());
    assert_eq!(&log[4..], &entry[..]);
}
