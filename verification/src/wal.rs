//! The write-ahead log.
//!
//! The log is a sequence of records. A record is the length of its entry, as
//! four bytes little-endian, and the entry: the sequence number of the
//! command, the command, and the checksum of the command's encoding, the two
//! numbers as variable-length integers. Nothing stands before the first
//! record or behind the last.
//!
//! Recovery reads the records in order and stops, without error, at the
//! first that is cut short or does not hold a valid entry: what stands
//! behind it is not looked at.

use crate::checksum::{checksum, crc32};
use crate::codec::{
    command_encoding, command_prefix, lemma_command_prefix_round_trip, DecodeError,
};
use crate::command::{command_views, CliCommand, CommandView};
use crate::database::{Database, StoreView};
use crate::endian::{
    le32_bytes, le32_decode, le32_encode, le32_value, lemma_le32_round_trip,
};
use crate::executor::{execute_all, run};
use crate::varint::{
    lemma_capacity_32, lemma_capacity_64, lemma_varint_round_trip, take_u32, take_u64, varint,
    varint32_prefix, varint64_prefix, write_varint,
};
use vstd::prelude::*;
use vstd::slice::*;
use vstd::string::*;

verus! {

/// The entry that holds a command with the encoding `body` under the number
/// `sequence`, with `sum` as its checksum.
pub open spec fn entry_of(sequence: u64, body: Seq<u8>, sum: u32) -> Seq<u8> {
    varint(sequence as nat) + body + varint(sum as nat)
}

/// The record around the entry of `body` under `sequence` with the checksum
/// `sum`: the length of the entry, then the entry.
pub open spec fn record_of(sequence: u64, body: Seq<u8>, sum: u32) -> Seq<u8> {
    le32_bytes(entry_of(sequence, body, sum).len() as u32) + entry_of(sequence, body, sum)
}

/// The entry that holds `command` under the number `sequence`: its checksum
/// is that of the command's encoding.
pub open spec fn entry_encoding(sequence: u64, command: CommandView) -> Seq<u8> {
    entry_of(sequence, command_encoding(command), crc32(command_encoding(command)))
}

/// The record that holds `command` under the number `sequence`.
pub open spec fn record(sequence: u64, command: CommandView) -> Seq<u8> {
    record_of(sequence, command_encoding(command), crc32(command_encoding(command)))
}

/// Whether the entry of `command` under `sequence` can be written: the
/// number is not the last, and the entry's length fits the four bytes that
/// go before it.
pub open spec fn recordable(sequence: u64, command: CommandView) -> bool {
    sequence < u64::MAX && entry_encoding(sequence, command).len() <= u32::MAX
}

/// The three parts that `entry` is made of, if they can be read: the
/// sequence number, the command, and the checksum that is stored behind it.
/// Bytes behind the checksum are not looked at.
pub open spec fn entry_parts(entry: Seq<u8>) -> Option<(u64, CommandView, u32)> {
    match varint64_prefix(entry) {
        None => None,
        Some((sequence, used)) => match command_prefix(entry.skip(used as int)) {
            Err(_) => None,
            Ok((command, more)) => match varint32_prefix(
                entry.skip(used as int).skip(more as int),
            ) {
                None => None,
                Some((stored, _)) => Some((sequence as u64, command, stored as u32)),
            },
        },
    }
}

/// Whether an entry with these parts is valid when `computed` is the
/// checksum of its command's encoding: the number is not the last, and the
/// checksum that is stored is the one that was computed.
pub open spec fn parts_are_valid(sequence: u64, stored: u32, computed: u32) -> bool {
    sequence < u64::MAX && stored == computed
}

/// The sequence number and the command that `entry` holds, if it is valid:
/// its parts can be read, the number is not the last, and the checksum that
/// is stored behind the command is that of the command's encoding.
pub open spec fn entry_reading(entry: Seq<u8>) -> Option<(u64, CommandView)> {
    match entry_parts(entry) {
        None => None,
        Some((sequence, command, stored)) => if parts_are_valid(
            sequence,
            stored,
            crc32(command_encoding(command)),
        ) {
            Some((sequence, command))
        } else {
            None
        },
    }
}

/// How the reading of a log ended.
#[derive(Debug, Clone, Copy, PartialEq, Eq, Structural)]
pub enum LogEnd {
    /// Behind the last valid record the log is empty.
    Complete,
    /// Behind the last valid record stands the beginning of a record: the
    /// writer stopped in the middle of an append.
    Truncated,
    /// Behind the last valid record stands a record whose entry is not
    /// valid.
    Corrupted,
}

/// The entries that recovery finds in `log`, in order: the sequence numbers
/// and commands of the records up to the first that is cut short or not
/// valid.
pub open spec fn replay(log: Seq<u8>) -> Seq<(u64, CommandView)>
    decreases log.len(),
{
    if log.len() < 4 || log.len() - 4 < le32_value(log) {
        Seq::empty()
    } else {
        let len = le32_value(log) as int;
        match entry_reading(log.subrange(4, 4 + len)) {
            None => Seq::empty(),
            Some(entry) => seq![entry] + replay(log.skip(4 + len)),
        }
    }
}

/// How the reading of `log` ends.
pub open spec fn replay_end(log: Seq<u8>) -> LogEnd
    decreases log.len(),
{
    if log.len() == 0 {
        LogEnd::Complete
    } else if log.len() < 4 || log.len() - 4 < le32_value(log) {
        LogEnd::Truncated
    } else {
        let len = le32_value(log) as int;
        match entry_reading(log.subrange(4, 4 + len)) {
            None => LogEnd::Corrupted,
            Some(_) => replay_end(log.skip(4 + len)),
        }
    }
}

/// The commands of `entries`, in order.
pub open spec fn commands_of(entries: Seq<(u64, CommandView)>) -> Seq<CommandView> {
    entries.map_values(|entry: (u64, CommandView)| entry.1)
}

/// The number that the next entry gets when `entries` were recovered: one
/// more than the last of them, and 0 where there is none.
pub open spec fn sequence_after(entries: Seq<(u64, CommandView)>) -> u64 {
    if entries.len() == 0 {
        0
    } else {
        (entries.last().0 + 1) as u64
    }
}

/// The log that holds `commands` in order, the first under the number
/// `first` and each next under the next number.
pub open spec fn log_of(commands: Seq<CommandView>, first: u64) -> Seq<u8>
    decreases commands.len(),
{
    if commands.len() == 0 {
        Seq::empty()
    } else {
        log_of(commands.drop_last(), first) + record(
            (first + commands.len() - 1) as u64,
            commands.last(),
        )
    }
}

/// The entries of the log that holds `commands` from the number `first` on.
pub open spec fn entries_of(commands: Seq<CommandView>, first: u64) -> Seq<(u64, CommandView)> {
    Seq::new(commands.len(), |i: int| ((first + i) as u64, commands[i]))
}

/// Whether the log that holds `commands` from the number `first` on can be
/// written: every command's strings have lengths that 64 bits hold, and
/// every entry can be written.
pub open spec fn loggable(commands: Seq<CommandView>, first: u64) -> bool {
    &&& first + commands.len() <= u64::MAX
    &&& forall|i: int|
        0 <= i < commands.len() ==> (#[trigger] commands[i]).fits() && recordable(
            (first + i) as u64,
            commands[i],
        )
}

/// An entry is read part by part: where the number, the command and the
/// checksum are read back from `head`, `body` and `sum`, the entry made of
/// the three is valid.
proof fn lemma_entry_parts(
    sequence: u64,
    command: CommandView,
    head: Seq<u8>,
    body: Seq<u8>,
    sum: Seq<u8>,
    rest: Seq<u8>,
)
    requires
        sequence < u64::MAX,
        varint64_prefix(head + (body + (sum + rest))) == Some((sequence as nat, head.len())),
        command_prefix(body + (sum + rest)) == Ok::<(CommandView, nat), DecodeError>(
            (command, body.len()),
        ),
        varint32_prefix(sum + rest) == Some((crc32(command_encoding(command)) as nat, sum.len())),
    ensures
        entry_reading(head + (body + (sum + rest))) == Some((sequence, command)),
{
    let entry = head + (body + (sum + rest));
    assert(entry.skip(head.len() as int) =~= body + (sum + rest));
    assert((body + (sum + rest)).skip(body.len() as int) =~= sum + rest);
    assert(entry_parts(entry) == Some(
        (sequence, command, crc32(command_encoding(command))),
    ));
}

/// A valid entry is read back: the number and the command of an entry are
/// those it was written with, whatever stands behind the entry.
pub proof fn lemma_entry_round_trip(sequence: u64, command: CommandView, rest: Seq<u8>)
    requires
        sequence < u64::MAX,
        command.fits(),
    ensures
        entry_reading(entry_encoding(sequence, command) + rest) == Some((sequence, command)),
{
    let head = varint(sequence as nat);
    let body = command_encoding(command);
    let sum = varint(crc32(body) as nat);
    assert(varint64_prefix(head + (body + (sum + rest))) == Some((sequence as nat, head.len())))
        by {
        lemma_capacity_64();
        lemma_varint_round_trip(sequence as nat, 10, 1, body + (sum + rest));
    }
    assert(command_prefix(body + (sum + rest)) == Ok::<(CommandView, nat), DecodeError>(
        (command, body.len()),
    )) by {
        lemma_command_prefix_round_trip(command, sum + rest);
    }
    assert(varint32_prefix(sum + rest) == Some((crc32(body) as nat, sum.len()))) by {
        lemma_capacity_32();
        lemma_varint_round_trip(crc32(body) as nat, 5, 15, rest);
    }
    lemma_entry_parts(sequence, command, head, body, sum, rest);
    assert(entry_encoding(sequence, command) + rest == head + (body + (sum + rest))) by {
        lemma_concat3(head, body, sum, rest);
    }
}

/// Concatenation may be grouped from the right.
proof fn lemma_concat3(a: Seq<u8>, b: Seq<u8>, c: Seq<u8>, d: Seq<u8>)
    ensures
        a + b + c + d == a + (b + (c + d)),
{
    assert(a + b + c + d =~= a + (b + (c + d)));
}

/// Recovery reads a record that was written and goes on behind it.
pub proof fn lemma_replay_record(sequence: u64, command: CommandView, rest: Seq<u8>)
    requires
        command.fits(),
        recordable(sequence, command),
    ensures
        replay(record(sequence, command) + rest) == seq![(sequence, command)] + replay(rest),
        replay_end(record(sequence, command) + rest) == replay_end(rest),
{
    let entry = entry_encoding(sequence, command);
    let log = record(sequence, command) + rest;
    let header = le32_bytes(entry.len() as u32);
    lemma_le32_round_trip(entry.len() as u32);
    assert(forall|i: int| 0 <= i < 4 ==> log[i] == header[i]);
    assert(le32_value(log) == le32_value(header));
    assert(log.subrange(4, 4 + entry.len() as int) =~= entry);
    assert(log.skip(4 + entry.len() as int) =~= rest);
    lemma_entry_round_trip(sequence, command, Seq::empty());
    assert(entry + Seq::<u8>::empty() =~= entry);
}

/// Recovery reads a log that was written and goes on behind it: what it
/// finds is what was written and then what it finds in the rest.
pub proof fn lemma_replay_log(commands: Seq<CommandView>, first: u64, rest: Seq<u8>)
    requires
        loggable(commands, first),
    ensures
        replay(log_of(commands, first) + rest) == entries_of(commands, first) + replay(rest),
        replay_end(log_of(commands, first) + rest) == replay_end(rest),
    decreases commands.len(),
{
    if commands.len() == 0 {
        assert(log_of(commands, first) + rest =~= rest);
        assert(entries_of(commands, first) + replay(rest) =~= replay(rest));
    } else {
        let before = commands.drop_last();
        let sequence = (first + commands.len() - 1) as u64;
        let last = record(sequence, commands.last());
        assert(loggable(before, first)) by {
            assert forall|i: int| 0 <= i < before.len() implies (#[trigger] before[i]).fits()
                && recordable((first + i) as u64, before[i]) by {
                assert(before[i] == commands[i]);
            }
        }
        assert(commands[commands.len() - 1].fits());
        assert(log_of(commands, first) + rest =~= log_of(before, first) + (last + rest));
        lemma_replay_log(before, first, last + rest);
        lemma_replay_record(sequence, commands.last(), rest);
        assert(entries_of(commands, first) =~= entries_of(before, first) + seq![
            (sequence, commands.last()),
        ]);
        assert(entries_of(before, first) + (seq![(sequence, commands.last())] + replay(rest))
            =~= entries_of(commands, first) + replay(rest));
    }
}

/// The log grows by one record with each command that is appended.
pub proof fn lemma_log_of_push(commands: Seq<CommandView>, first: u64, command: CommandView)
    requires
        first + commands.len() <= u64::MAX,
    ensures
        log_of(commands.push(command), first) == log_of(commands, first) + record(
            (first + commands.len()) as u64,
            command,
        ),
{
    assert(commands.push(command).drop_last() =~= commands);
}

/// What recovery finds in a written log: its commands, and as the next
/// number the one behind the last.
pub proof fn lemma_entries_of(commands: Seq<CommandView>, first: u64)
    requires
        first + commands.len() <= u64::MAX,
    ensures
        commands_of(entries_of(commands, first)) == commands,
        sequence_after(entries_of(commands, first)) == if commands.len() == 0 {
            0
        } else {
            first + commands.len()
        },
{
    assert(commands_of(entries_of(commands, first)) =~= commands);
}

/// Replay rebuilds the store. Take the log that holds a sequence of
/// commands, appended one after the other from the number `first` on: its
/// replay finds exactly these commands, in order, and ends at the end of the
/// log; so carrying out what the replay finds, on any store, gives the store
/// that carrying out the commands themselves gives.
pub proof fn law_replay_rebuilds_store(commands: Seq<CommandView>, first: u64, store: StoreView)
    requires
        loggable(commands, first),
    ensures
        commands_of(replay(log_of(commands, first))) == commands,
        sequence_after(replay(log_of(commands, first))) == if commands.len() == 0 {
            0
        } else {
            first + commands.len()
        },
        replay_end(log_of(commands, first)) == LogEnd::Complete,
        run(commands_of(replay(log_of(commands, first))), store) == run(commands, store),
{
    let log = log_of(commands, first);
    lemma_replay_log(commands, first, Seq::empty());
    assert(log + Seq::<u8>::empty() =~= log);
    assert(entries_of(commands, first) + replay(Seq::<u8>::empty()) =~= entries_of(
        commands,
        first,
    ));
    lemma_entries_of(commands, first);
}

/// A record that is not valid stops recovery. Take a written log, behind it
/// a record whose entry is not valid (it cannot be read, or its checksum
/// does not match), and anything behind that: replay finds the commands of
/// the written log, no more, and reports the log as corrupted.
pub proof fn law_invalid_record_stops_replay(
    commands: Seq<CommandView>,
    first: u64,
    damaged: Seq<u8>,
    behind: Seq<u8>,
)
    requires
        loggable(commands, first),
        damaged.len() <= u32::MAX,
        entry_reading(damaged) is None,
    ensures
        ({
            let log = log_of(commands, first) + (le32_bytes(damaged.len() as u32) + damaged
                + behind);
            &&& commands_of(replay(log)) == commands
            &&& replay_end(log) == LogEnd::Corrupted
        }),
{
    let header = le32_bytes(damaged.len() as u32);
    let rest = header + damaged + behind;
    lemma_le32_round_trip(damaged.len() as u32);
    assert(forall|i: int| 0 <= i < 4 ==> rest[i] == header[i]);
    assert(le32_value(rest) == le32_value(header));
    assert(rest.subrange(4, 4 + damaged.len() as int) =~= damaged);
    lemma_replay_log(commands, first, rest);
    assert(entries_of(commands, first) + replay(rest) =~= entries_of(commands, first));
    lemma_entries_of(commands, first);
}

/// A record that is cut short ends recovery cleanly. Take a written log and
/// behind it the beginning of a record (fewer than the four bytes of the
/// length, or fewer bytes behind them than the length says): replay finds
/// the commands of the written log, no more.
pub proof fn law_truncated_record_ends_replay(
    commands: Seq<CommandView>,
    first: u64,
    partial: Seq<u8>,
)
    requires
        loggable(commands, first),
        partial.len() < 4 || partial.len() - 4 < le32_value(partial),
    ensures
        commands_of(replay(log_of(commands, first) + partial)) == commands,
        replay_end(log_of(commands, first) + partial) == if partial.len() == 0 {
            LogEnd::Complete
        } else {
            LogEnd::Truncated
        },
{
    lemma_replay_log(commands, first, partial);
    assert(entries_of(commands, first) + replay(partial) =~= entries_of(commands, first));
    lemma_entries_of(commands, first);
}

/// Why a command was not appended to the log.
#[derive(Debug, Clone, Copy, PartialEq, Eq, Structural)]
pub enum WalError {
    /// The sequence numbers are used up.
    SequenceExhausted,
    /// The entry is longer than the four bytes before it can say.
    EntryTooLarge,
}

/// Why a command was not logged, in words.
pub open spec fn wal_error_text(error: WalError) -> Seq<char> {
    match error {
        WalError::SequenceExhausted => "the sequence numbers are used up"@,
        WalError::EntryTooLarge => "the entry is too large"@,
    }
}

impl WalError {
    /// Why a command was not logged, in words.
    pub fn to_text(&self) -> (text: String)
        ensures
            text@ == wal_error_text(*self),
    {
        match self {
            WalError::SequenceExhausted => String::from_str("the sequence numbers are used up"),
            WalError::EntryTooLarge => String::from_str("the entry is too large"),
        }
    }
}

/// The writer's end of the log: it knows the number of the next entry.
pub struct WAL {
    sequence: u64,
}

/// What recovery found in a log.
pub struct Recovery {
    /// The commands of the valid records, in the order of the log.
    pub commands: Vec<CliCommand>,
    /// The number that the next entry gets.
    pub next_sequence: u64,
    /// How the reading ended.
    pub end: LogEnd,
}

/// Makes the record of a command: `body` is the command's encoding and `sum`
/// its checksum.
///
/// There is no record where the number is the last one, or where the entry
/// is too long for a record.
pub fn write_record(sequence: u64, body: &[u8], sum: u32) -> (written: Result<Vec<u8>, WalError>)
    ensures
        match written {
            Ok(bytes) => sequence < u64::MAX && entry_of(sequence, body@, sum).len() <= u32::MAX
                && bytes@ == record_of(sequence, body@, sum),
            Err(error) => if sequence == u64::MAX {
                error == WalError::SequenceExhausted
            } else {
                error == WalError::EntryTooLarge && entry_of(sequence, body@, sum).len()
                    > u32::MAX
            },
        },
{
    if sequence == u64::MAX {
        return Err(WalError::SequenceExhausted);
    }
    let mut entry = write_varint(sequence);
    let mut body = slice_to_vec(body);
    let mut tail = write_varint(sum as u64);
    entry.append(&mut body);
    entry.append(&mut tail);
    if entry.len() > 0xffff_ffff {
        return Err(WalError::EntryTooLarge);
    }
    let mut bytes = le32_encode(entry.len() as u32);
    bytes.append(&mut entry);
    Ok(bytes)
}

/// Reads the three parts of an entry: its sequence number, its command,
/// and the checksum that is stored behind the command.
pub fn split_entry(entry: &[u8]) -> (parts: Option<(u64, CliCommand, u32)>)
    ensures
        match entry_parts(entry@) {
            Some((sequence, command, stored)) => parts matches Some((s, c, sum)) && s == sequence
                && c@ == command && sum == stored,
            None => parts is None,
        },
{
    match take_u64(entry) {
        None => None,
        Some((sequence, rest)) => match CliCommand::take_from_bytes(rest) {
            Err(_) => None,
            Ok((command, tail)) => match take_u32(tail) {
                None => None,
                Some((stored, _)) => Some((sequence, command, stored)),
            },
        },
    }
}

/// Reads the entry of a record: its sequence number and its command, if the
/// entry is valid.
fn read_entry(entry: &[u8]) -> (read: Option<(u64, CliCommand)>)
    ensures
        match entry_reading(entry@) {
            Some((sequence, command)) => read matches Some((s, c)) && s == sequence && c@
                == command,
            None => read is None,
        },
{
    match split_entry(entry) {
        None => None,
        Some((sequence, command, stored)) => {
            let body = command.as_bytes();
            if sequence < u64::MAX && stored == checksum(body.as_slice()) {
                Some((sequence, command))
            } else {
                None
            }
        },
    }
}

impl WAL {
    /// The number that the next entry gets.
    pub closed spec fn next_sequence(&self) -> u64 {
        self.sequence
    }

    /// The writer of an empty log: the first entry gets the number 0.
    pub fn new() -> (wal: WAL)
        ensures
            wal.next_sequence() == 0,
    {
        WAL { sequence: 0 }
    }

    /// The writer of a log that was recovered: the next entry gets the
    /// number `sequence`.
    pub fn resume(sequence: u64) -> (wal: WAL)
        ensures
            wal.next_sequence() == sequence,
    {
        WAL { sequence }
    }

    /// The number that the next entry gets.
    pub fn sequence(&self) -> (sequence: u64)
        ensures
            sequence == self.next_sequence(),
    {
        self.sequence
    }

    /// The record that holds `command` under the next sequence number.
    /// Nothing is written and the number stays: see [`WAL::advance`].
    ///
    /// There is no record where the numbers are used up, or where the entry
    /// is too long for a record.
    pub fn next_record(&self, command: &CliCommand) -> (written: Result<Vec<u8>, WalError>)
        ensures
            command@.fits(),
            match written {
                Ok(bytes) => recordable(self.next_sequence(), command@) && bytes@ == record(
                    self.next_sequence(),
                    command@,
                ),
                Err(error) => !recordable(self.next_sequence(), command@) && (error
                    == WalError::SequenceExhausted <==> self.next_sequence() == u64::MAX),
            },
    {
        let body = command.as_bytes();
        let sum = checksum(body.as_slice());
        write_record(self.sequence, body.as_slice(), sum)
    }

    /// Moves on to the next sequence number, once the record of the
    /// current one is written.
    pub fn advance(&mut self)
        requires
            old(self).next_sequence() < u64::MAX,
        ensures
            final(self).next_sequence() == old(self).next_sequence() + 1,
    {
        self.sequence = self.sequence + 1;
    }

    /// Appends the record of `command` to `log` and moves on to the next
    /// sequence number.
    ///
    /// Where the numbers are used up, or the entry is too long for a record,
    /// nothing is written and the number stays.
    pub fn append(&mut self, command: &CliCommand, log: &mut Vec<u8>) -> (appended: Result<
        (),
        WalError,
    >)
        ensures
            command@.fits(),
            match appended {
                Ok(_) => recordable(old(self).next_sequence(), command@) && final(log)@ == old(
                    log,
                )@ + record(old(self).next_sequence(), command@)
                    && final(self).next_sequence() == old(self).next_sequence() + 1,
                Err(error) => !recordable(old(self).next_sequence(), command@) && final(log)@
                    == old(log)@ && final(self).next_sequence() == old(self).next_sequence()
                    && (error == WalError::SequenceExhausted <==> old(self).next_sequence()
                    == u64::MAX),
            },
    {
        match self.next_record(command) {
            Err(error) => Err(error),
            Ok(bytes) => {
                let mut bytes = bytes;
                log.append(&mut bytes);
                self.advance();
                Ok(())
            },
        }
    }

    /// Reads `log` from its first record on and returns the commands of
    /// its valid records, in order, with the number of the next entry.
    ///
    /// The reading stops, without error, at the end of the log, at a record
    /// that is cut short, or at a record whose entry is not valid; of what
    /// stands behind such a record nothing is returned.
    pub fn recover(log: &[u8]) -> (recovery: Recovery)
        ensures
            command_views(recovery.commands@) == commands_of(replay(log@)),
            recovery.next_sequence == sequence_after(replay(log@)),
            recovery.end == replay_end(log@),
    {
        let mut commands: Vec<CliCommand> = Vec::new();
        let mut next_sequence: u64 = 0;
        let mut position: usize = 0;
        let mut end = LogEnd::Complete;
        let ghost mut found: Seq<(u64, CommandView)> = Seq::empty();
        let mut reading = true;
        assert(log@.skip(0) =~= log@);
        assert(command_views(commands@) =~= commands_of(found));
        while reading
            invariant
                position <= log@.len(),
                command_views(commands@) == commands_of(found),
                next_sequence == sequence_after(found),
                reading ==> replay(log@) == found + replay(log@.skip(position as int)),
                reading ==> replay_end(log@) == replay_end(log@.skip(position as int)),
                !reading ==> replay(log@) == found,
                !reading ==> replay_end(log@) == end,
            decreases log@.len() - position + if reading { 1int } else { 0int },
        {
            let rest = slice_subrange(log, position, log.len());
            assert(rest@ =~= log@.skip(position as int));
            let left = rest.len();
            if left == 0 {
                end = LogEnd::Complete;
                reading = false;
                assert(found + replay(rest@) =~= found);
            } else if left < 4 {
                end = LogEnd::Truncated;
                reading = false;
                assert(found + replay(rest@) =~= found);
            } else {
                let len = le32_decode(rest);
                if ((left - 4) as u64) < len as u64 {
                    end = LogEnd::Truncated;
                    reading = false;
                    assert(found + replay(rest@) =~= found);
                } else {
                    let size = len as usize;
                    let entry = slice_subrange(rest, 4, 4 + size);
                    match read_entry(entry) {
                        None => {
                            end = LogEnd::Corrupted;
                            reading = false;
                            assert(found + replay(rest@) =~= found);
                        },
                        Some((sequence, command)) => {
                            proof {
                                let view = (sequence, command@);
                                assert(rest@.skip(4 + size) =~= log@.skip(position + 4 + size));
                                assert(found + (seq![view] + replay(rest@.skip(4 + size)))
                                    =~= found.push(view) + replay(rest@.skip(4 + size)));
                                assert(commands_of(found.push(view)) =~= commands_of(found).push(
                                    command@,
                                ));
                                found = found.push(view);
                            }
                            commands.push(command);
                            assert(command_views(commands@) =~= commands_of(found));
                            next_sequence = sequence + 1;
                            position = position + 4 + size;
                        },
                    }
                }
            }
        }
        Recovery { commands, next_sequence, end }
    }

    /// Rebuilds the store from `log`: carries out on `db` the commands of
    /// the valid records, in order, and returns the number of the next
    /// entry and how the reading ended.
    pub fn restore(log: &[u8], db: &mut Database) -> (outcome: (u64, LogEnd))
        requires
            old(db).wf(),
        ensures
            final(db).wf(),
            final(db)@ == run(commands_of(replay(log@)), old(db)@),
            outcome.0 == sequence_after(replay(log@)),
            outcome.1 == replay_end(log@),
    {
        let recovery = WAL::recover(log);
        let next_sequence = recovery.next_sequence;
        let end = recovery.end;
        execute_all(recovery.commands, db);
        (next_sequence, end)
    }
}

} // verus!
