//! Unsigned integers laid out as bytes, in either byte order.

use byteorder::ByteOrder;
use vstd::prelude::*;

verus! {

/// The value of the first two bytes of `s`, least significant byte first.
pub open spec fn le_u16(s: Seq<u8>) -> int {
    s[0] + 0x100 * s[1]
}

/// The value of the first two bytes of `s`, most significant byte first.
pub open spec fn be_u16(s: Seq<u8>) -> int {
    0x100 * s[0] + s[1]
}

/// The value of the first four bytes of `s`, least significant byte first.
pub open spec fn le_u32(s: Seq<u8>) -> int {
    s[0] + 0x100 * s[1] + 0x1_0000 * s[2] + 0x100_0000 * s[3]
}

/// The value of the first four bytes of `s`, most significant byte first.
pub open spec fn be_u32(s: Seq<u8>) -> int {
    0x100_0000 * s[0] + 0x1_0000 * s[1] + 0x100 * s[2] + s[3]
}

/// The value of the first eight bytes of `s`, least significant byte first.
pub open spec fn le_u64(s: Seq<u8>) -> int {
    le_u32(s) + 0x1_0000_0000 * le_u32(s.skip(4))
}

/// The value of the first eight bytes of `s`, most significant byte first.
pub open spec fn be_u64(s: Seq<u8>) -> int {
    0x1_0000_0000 * be_u32(s) + be_u32(s.skip(4))
}

/// Calls `byteorder::LittleEndian::read_u16`, which panics on fewer than two
/// bytes and otherwise hands the first two bytes to `u16::from_le_bytes`.
#[verifier::external_body]
pub(crate) fn le_read_u16(buf: &[u8]) -> (v: u16)
    requires
        buf@.len() >= 2,
    ensures
        v == le_u16(buf@),
{
    byteorder::LittleEndian::read_u16(buf)
}

/// Calls `byteorder::BigEndian::read_u16`, which panics on fewer than two
/// bytes and otherwise hands the first two bytes to `u16::from_be_bytes`.
#[verifier::external_body]
pub(crate) fn be_read_u16(buf: &[u8]) -> (v: u16)
    requires
        buf@.len() >= 2,
    ensures
        v == be_u16(buf@),
{
    byteorder::BigEndian::read_u16(buf)
}

/// Calls `byteorder::LittleEndian::read_u32`, which panics on fewer than four
/// bytes and otherwise hands the first four bytes to `u32::from_le_bytes`.
#[verifier::external_body]
pub(crate) fn le_read_u32(buf: &[u8]) -> (v: u32)
    requires
        buf@.len() >= 4,
    ensures
        v == le_u32(buf@),
{
    byteorder::LittleEndian::read_u32(buf)
}

/// Calls `byteorder::BigEndian::read_u32`, which panics on fewer than four
/// bytes and otherwise hands the first four bytes to `u32::from_be_bytes`.
#[verifier::external_body]
pub(crate) fn be_read_u32(buf: &[u8]) -> (v: u32)
    requires
        buf@.len() >= 4,
    ensures
        v == be_u32(buf@),
{
    byteorder::BigEndian::read_u32(buf)
}

/// Calls `byteorder::LittleEndian::read_u64`, which panics on fewer than eight
/// bytes and otherwise hands the first eight bytes to `u64::from_le_bytes`.
#[verifier::external_body]
pub(crate) fn le_read_u64(buf: &[u8]) -> (v: u64)
    requires
        buf@.len() >= 8,
    ensures
        v == le_u64(buf@),
{
    byteorder::LittleEndian::read_u64(buf)
}

/// Calls `byteorder::BigEndian::read_u64`, which panics on fewer than eight
/// bytes and otherwise hands the first eight bytes to `u64::from_be_bytes`.
#[verifier::external_body]
pub(crate) fn be_read_u64(buf: &[u8]) -> (v: u64)
    requires
        buf@.len() >= 8,
    ensures
        v == be_u64(buf@),
{
    byteorder::BigEndian::read_u64(buf)
}

} // verus!
