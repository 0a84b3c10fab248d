//! Fixed-width unsigned integers as they lie in a byte buffer.
//!
//! The reading itself is done by the `byteorder` crate; the functions here give those
//! calls a contract over the arithmetic value of the bytes. The contracts are taken on
//! trust: they restate what `byteorder` documents and are not proved against its code.

use byteorder::{BigEndian, ByteOrder, LittleEndian};
use vstd::prelude::*;

verus! {

/// The 16-bit value whose least significant byte comes first in `buf`.
pub open spec fn u16_le(buf: Seq<u8>) -> u16
    recommends
        buf.len() >= 2,
{
    (buf[0] as int + 0x100 * (buf[1] as int)) as u16
}

/// The 16-bit value whose most significant byte comes first in `buf`.
pub open spec fn u16_be(buf: Seq<u8>) -> u16
    recommends
        buf.len() >= 2,
{
    (0x100 * (buf[0] as int) + buf[1] as int) as u16
}

/// The 32-bit value whose least significant byte comes first in `buf`.
pub open spec fn u32_le(buf: Seq<u8>) -> u32
    recommends
        buf.len() >= 4,
{
    (buf[0] as int + 0x100 * (buf[1] as int) + 0x1_0000 * (buf[2] as int) + 0x100_0000 * (
    buf[3] as int)) as u32
}

/// Calls `<LittleEndian as ByteOrder>::read_u16`, which reads the first two bytes of `buf`
/// as a little-endian integer and panics on a shorter buffer. Bytes after the second are
/// not looked at.
#[verifier::external_body]
pub(crate) fn read_u16_le(buf: &[u8]) -> (value: u16)
    requires
        buf.len() >= 2,
    ensures
        value == u16_le(buf@),
{
    LittleEndian::read_u16(buf)
}

/// Calls `<BigEndian as ByteOrder>::read_u16`, which reads the first two bytes of `buf`
/// as a big-endian integer and panics on a shorter buffer. Bytes after the second are
/// not looked at.
#[verifier::external_body]
pub(crate) fn read_u16_be(buf: &[u8]) -> (value: u16)
    requires
        buf.len() >= 2,
    ensures
        value == u16_be(buf@),
{
    BigEndian::read_u16(buf)
}

/// Calls `<LittleEndian as ByteOrder>::read_u32`, which reads the first four bytes of `buf`
/// as a little-endian integer and panics on a shorter buffer. Bytes after the fourth are
/// not looked at.
#[verifier::external_body]
pub(crate) fn read_u32_le(buf: &[u8]) -> (value: u32)
    requires
        buf.len() >= 4,
    ensures
        value == u32_le(buf@),
{
    LittleEndian::read_u32(buf)
}

} // verus!
