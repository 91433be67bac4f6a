//! Variable-length integers, as the log and the command encoding hold them.
//!
//! An integer is written seven bits at a time, least significant group
//! first; every byte but the last has its top bit set. `postcard` does the
//! writing and the reading; this module states what it hands back and proves
//! that reading undoes writing.
//!
//! The statements are in arithmetic: the low seven bits of a byte are the
//! byte modulo 128, a shift by seven bits is a division or a multiplication
//! by 128, and, as the groups of seven bits do not overlap, joining them is
//! adding them.

use vstd::prelude::*;

verus! {

/// The bytes that stand for `value`.
pub open spec fn varint(value: nat) -> Seq<u8>
    decreases value,
{
    if value < 128 {
        seq![value as u8]
    } else {
        seq![(value % 128 + 128) as u8] + varint(value / 128)
    }
}

/// The integer at the front of `bytes` and the number of bytes it takes, when
/// at most `width` bytes may be used and the last of them may not exceed
/// `top`. `None` when `bytes` ends too early, when the integer runs past
/// `width` bytes, or when its last byte is above `top`.
pub open spec fn varint_prefix(bytes: Seq<u8>, width: nat, top: u8) -> Option<(nat, nat)>
    decreases width,
{
    if width == 0 || bytes.len() == 0 {
        None
    } else if bytes[0] < 128 {
        if width == 1 && bytes[0] > top {
            None
        } else {
            Some((bytes[0] as nat, 1nat))
        }
    } else {
        match varint_prefix(bytes.skip(1), (width - 1) as nat, top) {
            Some((high, used)) => Some(((bytes[0] - 128 + 128 * high) as nat, used + 1)),
            None => None,
        }
    }
}

/// The 64-bit integer at the front of `bytes`: up to ten bytes, the tenth at
/// most 1.
pub open spec fn varint64_prefix(bytes: Seq<u8>) -> Option<(nat, nat)> {
    varint_prefix(bytes, 10, 1)
}

/// The 32-bit integer at the front of `bytes`: up to five bytes, the fifth at
/// most 15.
pub open spec fn varint32_prefix(bytes: Seq<u8>) -> Option<(nat, nat)> {
    varint_prefix(bytes, 5, 15)
}

/// One more than the largest integer that `width` bytes can hold when the
/// last may not exceed `top`.
pub open spec fn varint_capacity(width: nat, top: u8) -> nat
    decreases width,
{
    if width == 0 {
        0
    } else if width == 1 {
        (top + 1) as nat
    } else {
        128 * varint_capacity((width - 1) as nat, top)
    }
}

/// Ten bytes with a last byte of at most 1 hold exactly the 64-bit integers.
pub proof fn lemma_capacity_64()
    ensures
        varint_capacity(10, 1) == 0x1_0000_0000_0000_0000,
{
    reveal_with_fuel(varint_capacity, 11);
}

/// Five bytes with a last byte of at most 15 hold exactly the 32-bit integers.
pub proof fn lemma_capacity_32()
    ensures
        varint_capacity(5, 15) == 0x1_0000_0000,
{
    reveal_with_fuel(varint_capacity, 6);
}

/// An encoding is never empty.
pub proof fn lemma_varint_len(value: nat)
    ensures
        varint(value).len() >= 1,
    decreases value,
{
    if value >= 128 {
        lemma_varint_len(value / 128);
    }
}

/// An integer that is read takes at least one byte, no more than `width` and
/// no more than there are, and lies below the capacity.
pub proof fn lemma_varint_prefix_bounds(bytes: Seq<u8>, width: nat, top: u8)
    requires
        top < 128,
    ensures
        varint_prefix(bytes, width, top) matches Some((value, used)) ==> 1 <= used <= width && used
            <= bytes.len() && value < varint_capacity(width, top),
    decreases width,
{
    if width > 0 && bytes.len() > 0 && bytes[0] >= 128 {
        lemma_varint_prefix_bounds(bytes.skip(1), (width - 1) as nat, top);
        if let Some((high, used)) = varint_prefix(bytes.skip(1), (width - 1) as nat, top) {
            assert(width >= 2);
            assert(bytes[0] - 128 + 128 * high < 128 * varint_capacity((width - 1) as nat, top))
                by (nonlinear_arith)
                requires
                    high < varint_capacity((width - 1) as nat, top),
                    128 <= bytes[0] < 256,
            ;
        }
    } else if width > 1 && bytes.len() > 0 {
        lemma_capacity_floor((width - 1) as nat, top);
    }
}

/// With at least one byte the capacity is at least 1; each further byte
/// multiplies it by 128.
proof fn lemma_capacity_floor(width: nat, top: u8)
    requires
        width >= 1,
    ensures
        varint_capacity(width, top) >= 1,
        varint_capacity(width + 1, top) == 128 * varint_capacity(width, top),
    decreases width,
{
    if width > 1 {
        lemma_capacity_floor((width - 1) as nat, top);
    }
}

/// Reading undoes writing: an integer below the capacity is read back from
/// the front of its encoding, whatever follows it.
pub proof fn lemma_varint_round_trip(value: nat, width: nat, top: u8, rest: Seq<u8>)
    requires
        top < 128,
        value < varint_capacity(width, top),
    ensures
        varint_prefix(varint(value) + rest, width, top) == Some((value, varint(value).len())),
    decreases width,
{
    let bytes = varint(value) + rest;
    lemma_varint_len(value);
    if value < 128 {
        assert(bytes[0] == value as u8);
    } else {
        assert(width >= 2);
        let high = value / 128;
        assert(high < varint_capacity((width - 1) as nat, top)) by (nonlinear_arith)
            requires
                value < 128 * varint_capacity((width - 1) as nat, top),
                high == value / 128,
        ;
        lemma_varint_round_trip(high, (width - 1) as nat, top, rest);
        assert(bytes[0] == (value % 128 + 128) as u8);
        assert(bytes.skip(1) =~= varint(high) + rest);
        assert(value % 128 + 128 * high == value) by (nonlinear_arith)
            requires
                high == value / 128,
        ;
    }
}

/// Writes `value` with `postcard::to_allocvec`.
///
/// Claimed of it: the bytes are those of [`varint`], which is how postcard
/// writes an unsigned integer (the low seven bits first, the top bit set on
/// every byte but the last, the rest shifted down by seven bits), and
/// writing into a growable vector never fails.
#[verifier::external_body]
pub(crate) fn write_varint(value: u64) -> (bytes: Vec<u8>)
    ensures
        bytes@ == varint(value as nat),
{
    postcard::to_allocvec(&value).unwrap_or_default()
}

/// Reads a 64-bit integer with `postcard::take_from_bytes`.
///
/// Claimed of it: it succeeds exactly when [`varint64_prefix`] finds an
/// integer, returns that integer and hands back the bytes behind it.
/// Postcard reads at most ten bytes, stops at the first without the top
/// bit, and refuses a tenth byte above 1; what it returns then fits 64 bits
/// ([`lemma_varint_prefix_bounds`], [`lemma_capacity_64`]).
#[verifier::external_body]
pub(crate) fn take_u64(bytes: &[u8]) -> (taken: Option<(u64, &[u8])>)
    ensures
        match varint64_prefix(bytes@) {
            Some((value, used)) => taken matches Some((v, rest)) && v as nat == value && rest@
                == bytes@.skip(used as int),
            None => taken is None,
        },
{
    postcard::take_from_bytes::<u64>(bytes).ok()
}

/// Reads a 32-bit integer with `postcard::take_from_bytes`.
///
/// Claimed of it: it succeeds exactly when [`varint32_prefix`] finds an
/// integer, returns that integer and hands back the bytes behind it.
/// Postcard reads at most five bytes, stops at the first without the top
/// bit, and refuses a fifth byte above 15; what it returns then fits 32 bits
/// ([`lemma_varint_prefix_bounds`], [`lemma_capacity_32`]).
#[verifier::external_body]
pub(crate) fn take_u32(bytes: &[u8]) -> (taken: Option<(u32, &[u8])>)
    ensures
        match varint32_prefix(bytes@) {
            Some((value, used)) => taken matches Some((v, rest)) && v as nat == value && rest@
                == bytes@.skip(used as int),
            None => taken is None,
        },
{
    postcard::take_from_bytes::<u32>(bytes).ok()
}

} // verus!
