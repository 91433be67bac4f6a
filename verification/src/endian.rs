//! Fixed-width integers as bytes: eight bytes big-endian for the length of a
//! frame, four bytes little-endian for the length of a log record.

use vstd::prelude::*;

verus! {

/// The eight bytes of `value`, most significant first.
pub open spec fn be64_bytes(value: u64) -> Seq<u8> {
    seq![
        (value / 0x100_0000_0000_0000) as u8,
        (value / 0x1_0000_0000_0000 % 256) as u8,
        (value / 0x100_0000_0000 % 256) as u8,
        (value / 0x1_0000_0000 % 256) as u8,
        (value / 0x100_0000 % 256) as u8,
        (value / 0x1_0000 % 256) as u8,
        (value / 0x100 % 256) as u8,
        (value % 256) as u8,
    ]
}

/// The integer that the first eight of `bytes` stand for, most significant
/// first.
pub open spec fn be64_value(bytes: Seq<u8>) -> nat
    recommends
        bytes.len() >= 8,
{
    (bytes[0] * 0x100_0000_0000_0000 + bytes[1] * 0x1_0000_0000_0000 + bytes[2] * 0x100_0000_0000
        + bytes[3] * 0x1_0000_0000 + bytes[4] * 0x100_0000 + bytes[5] * 0x1_0000 + bytes[6] * 0x100
        + bytes[7]) as nat
}

/// The four bytes of `value`, least significant first.
pub open spec fn le32_bytes(value: u32) -> Seq<u8> {
    seq![
        (value % 256) as u8,
        (value / 0x100 % 256) as u8,
        (value / 0x1_0000 % 256) as u8,
        (value / 0x100_0000) as u8,
    ]
}

/// The integer that the first four of `bytes` stand for, least significant
/// first.
pub open spec fn le32_value(bytes: Seq<u8>) -> nat
    recommends
        bytes.len() >= 4,
{
    (bytes[0] + bytes[1] * 0x100 + bytes[2] * 0x1_0000 + bytes[3] * 0x100_0000) as nat
}

/// Eight bytes are written, and reading them gives the integer back.
pub proof fn lemma_be64_round_trip(value: u64)
    ensures
        be64_bytes(value).len() == 8,
        be64_value(be64_bytes(value)) == value,
{
    let bytes = be64_bytes(value);
    assert(value / 0x100_0000_0000_0000 < 256) by (bit_vector);
    assert(value / 0x100_0000_0000_0000 * 0x100_0000_0000_0000 + value / 0x1_0000_0000_0000 % 256
        * 0x1_0000_0000_0000 + value / 0x100_0000_0000 % 256 * 0x100_0000_0000 + value
        / 0x1_0000_0000 % 256 * 0x1_0000_0000 + value / 0x100_0000 % 256 * 0x100_0000 + value
        / 0x1_0000 % 256 * 0x1_0000 + value / 0x100 % 256 * 0x100 + value % 256 == value)
        by (bit_vector);
    assert(bytes[0] == value / 0x100_0000_0000_0000);
    assert(bytes[1] == value / 0x1_0000_0000_0000 % 256);
    assert(bytes[2] == value / 0x100_0000_0000 % 256);
    assert(bytes[3] == value / 0x1_0000_0000 % 256);
    assert(bytes[4] == value / 0x100_0000 % 256);
    assert(bytes[5] == value / 0x1_0000 % 256);
    assert(bytes[6] == value / 0x100 % 256);
    assert(bytes[7] == value % 256);
}

/// Four bytes are written, and reading them gives the integer back.
pub proof fn lemma_le32_round_trip(value: u32)
    ensures
        le32_bytes(value).len() == 4,
        le32_value(le32_bytes(value)) == value,
{
    let bytes = le32_bytes(value);
    assert(value / 0x100_0000 < 256) by (bit_vector);
    assert(value % 256 + value / 0x100 % 256 * 0x100 + value / 0x1_0000 % 256 * 0x1_0000 + value
        / 0x100_0000 * 0x100_0000 == value) by (bit_vector);
    assert(bytes[0] == value % 256);
    assert(bytes[1] == value / 0x100 % 256);
    assert(bytes[2] == value / 0x1_0000 % 256);
    assert(bytes[3] == value / 0x100_0000);
}

/// Writes `value` as eight bytes, most significant first.
pub fn be64_encode(value: u64) -> (bytes: Vec<u8>)
    ensures
        bytes@ == be64_bytes(value),
{
    let b0 = (value >> 56) as u8;
    let b1 = ((value >> 48) & 0xff) as u8;
    let b2 = ((value >> 40) & 0xff) as u8;
    let b3 = ((value >> 32) & 0xff) as u8;
    let b4 = ((value >> 24) & 0xff) as u8;
    let b5 = ((value >> 16) & 0xff) as u8;
    let b6 = ((value >> 8) & 0xff) as u8;
    let b7 = (value & 0xff) as u8;
    assert(value >> 56 == value / 0x100_0000_0000_0000) by (bit_vector);
    assert((value >> 48) & 0xff == value / 0x1_0000_0000_0000 % 256) by (bit_vector);
    assert((value >> 40) & 0xff == value / 0x100_0000_0000 % 256) by (bit_vector);
    assert((value >> 32) & 0xff == value / 0x1_0000_0000 % 256) by (bit_vector);
    assert((value >> 24) & 0xff == value / 0x100_0000 % 256) by (bit_vector);
    assert((value >> 16) & 0xff == value / 0x1_0000 % 256) by (bit_vector);
    assert((value >> 8) & 0xff == value / 0x100 % 256) by (bit_vector);
    assert(value & 0xff == value % 256) by (bit_vector);
    let mut bytes = Vec::with_capacity(8);
    bytes.push(b0);
    bytes.push(b1);
    bytes.push(b2);
    bytes.push(b3);
    bytes.push(b4);
    bytes.push(b5);
    bytes.push(b6);
    bytes.push(b7);
    assert(bytes@ =~= be64_bytes(value));
    bytes
}

/// Reads the integer that the first eight of `bytes` stand for, most
/// significant first.
pub fn be64_decode(bytes: &[u8]) -> (value: u64)
    requires
        bytes@.len() >= 8,
    ensures
        value == be64_value(bytes@),
{
    let b0 = bytes[0] as u64;
    let b1 = bytes[1] as u64;
    let b2 = bytes[2] as u64;
    let b3 = bytes[3] as u64;
    let b4 = bytes[4] as u64;
    let b5 = bytes[5] as u64;
    let b6 = bytes[6] as u64;
    let b7 = bytes[7] as u64;
    assert((b0 << 56 | b1 << 48 | b2 << 40 | b3 << 32 | b4 << 24 | b5 << 16 | b6 << 8 | b7) == b0
        * 0x100_0000_0000_0000 + b1 * 0x1_0000_0000_0000 + b2 * 0x100_0000_0000 + b3
        * 0x1_0000_0000 + b4 * 0x100_0000 + b5 * 0x1_0000 + b6 * 0x100 + b7) by (bit_vector)
        requires
            b0 < 256,
            b1 < 256,
            b2 < 256,
            b3 < 256,
            b4 < 256,
            b5 < 256,
            b6 < 256,
            b7 < 256,
    ;
    b0 << 56 | b1 << 48 | b2 << 40 | b3 << 32 | b4 << 24 | b5 << 16 | b6 << 8 | b7
}

/// Writes `value` as four bytes, least significant first.
pub fn le32_encode(value: u32) -> (bytes: Vec<u8>)
    ensures
        bytes@ == le32_bytes(value),
{
    let b0 = (value & 0xff) as u8;
    let b1 = ((value >> 8) & 0xff) as u8;
    let b2 = ((value >> 16) & 0xff) as u8;
    let b3 = (value >> 24) as u8;
    assert(value & 0xff == value % 256) by (bit_vector);
    assert((value >> 8) & 0xff == value / 0x100 % 256) by (bit_vector);
    assert((value >> 16) & 0xff == value / 0x1_0000 % 256) by (bit_vector);
    assert(value >> 24 == value / 0x100_0000) by (bit_vector);
    let mut bytes = Vec::with_capacity(4);
    bytes.push(b0);
    bytes.push(b1);
    bytes.push(b2);
    bytes.push(b3);
    assert(bytes@ =~= le32_bytes(value));
    bytes
}

/// Reads the integer that the first four of `bytes` stand for, least
/// significant first.
pub fn le32_decode(bytes: &[u8]) -> (value: u32)
    requires
        bytes@.len() >= 4,
    ensures
        value == le32_value(bytes@),
{
    let b0 = bytes[0] as u32;
    let b1 = bytes[1] as u32;
    let b2 = bytes[2] as u32;
    let b3 = bytes[3] as u32;
    assert((b0 | b1 << 8 | b2 << 16 | b3 << 24) == b0 + b1 * 0x100 + b2 * 0x1_0000 + b3
        * 0x100_0000) by (bit_vector)
        requires
            b0 < 256,
            b1 < 256,
            b2 < 256,
            b3 < 256,
    ;
    b0 | b1 << 8 | b2 << 16 | b3 << 24
}

} // verus!
