//! Two- and four-byte unsigned integers in either byte order.

use vstd::prelude::*;
use vstd::slice::slice_subrange;
use crate::error::Error;

verus! {

/// The byte order that a TIFF header selects for everything after it.
#[derive(Clone, Copy, Debug, PartialEq, Eq, Structural)]
pub enum ByteOrder {
    BigEndian,
    LittleEndian,
}

/// The 16-bit value of the two bytes at `pos`.
pub open spec fn u16_at(order: ByteOrder, s: Seq<u8>, pos: int) -> u16
    recommends
        0 <= pos,
        pos + 2 <= s.len(),
{
    match order {
        ByteOrder::LittleEndian => (s[pos] as int + 256 * (s[pos + 1] as int)) as u16,
        ByteOrder::BigEndian => (256 * (s[pos] as int) + s[pos + 1] as int) as u16,
    }
}

/// The 32-bit value of the four bytes at `pos`.
pub open spec fn u32_at(order: ByteOrder, s: Seq<u8>, pos: int) -> u32
    recommends
        0 <= pos,
        pos + 4 <= s.len(),
{
    match order {
        ByteOrder::LittleEndian => (s[pos] as int + 256 * (s[pos + 1] as int) + 65536 * (s[pos
            + 2] as int) + 16777216 * (s[pos + 3] as int)) as u32,
        ByteOrder::BigEndian => (16777216 * (s[pos] as int) + 65536 * (s[pos + 1] as int) + 256 * (
        s[pos + 2] as int) + s[pos + 3] as int) as u32,
    }
}

/// What reading two bytes at `pos` gives: the value, or the end of the bytes.
pub open spec fn u16_read(order: ByteOrder, s: Seq<u8>, pos: int) -> Result<u16, Error> {
    if pos + 2 <= s.len() {
        Ok(u16_at(order, s, pos))
    } else {
        Err(Error::UnexpectedEof)
    }
}

/// What reading four bytes at `pos` gives: the value, or the end of the bytes.
pub open spec fn u32_read(order: ByteOrder, s: Seq<u8>, pos: int) -> Result<u32, Error> {
    if pos + 4 <= s.len() {
        Ok(u32_at(order, s, pos))
    } else {
        Err(Error::UnexpectedEof)
    }
}

/// Calls `byteorder::LittleEndian::read_u16`, which takes the first two bytes
/// of the slice, least significant first, and panics on a shorter slice.
#[verifier::external_body]
fn le_u16(buf: &[u8]) -> (v: u16)
    requires
        buf@.len() >= 2,
    ensures
        v == u16_at(ByteOrder::LittleEndian, buf@, 0),
{
    <byteorder::LittleEndian as byteorder::ByteOrder>::read_u16(buf)
}

/// Calls `byteorder::BigEndian::read_u16`, which takes the first two bytes of
/// the slice, most significant first, and panics on a shorter slice.
#[verifier::external_body]
fn be_u16(buf: &[u8]) -> (v: u16)
    requires
        buf@.len() >= 2,
    ensures
        v == u16_at(ByteOrder::BigEndian, buf@, 0),
{
    <byteorder::BigEndian as byteorder::ByteOrder>::read_u16(buf)
}

/// Calls `byteorder::LittleEndian::read_u32`, which takes the first four bytes
/// of the slice, least significant first, and panics on a shorter slice.
#[verifier::external_body]
fn le_u32(buf: &[u8]) -> (v: u32)
    requires
        buf@.len() >= 4,
    ensures
        v == u32_at(ByteOrder::LittleEndian, buf@, 0),
{
    <byteorder::LittleEndian as byteorder::ByteOrder>::read_u32(buf)
}

/// Calls `byteorder::BigEndian::read_u32`, which takes the first four bytes of
/// the slice, most significant first, and panics on a shorter slice.
#[verifier::external_body]
fn be_u32(buf: &[u8]) -> (v: u32)
    requires
        buf@.len() >= 4,
    ensures
        v == u32_at(ByteOrder::BigEndian, buf@, 0),
{
    <byteorder::BigEndian as byteorder::ByteOrder>::read_u32(buf)
}

/// Reads the 16-bit integer at `pos` in the given byte order.
pub fn read_u16(byte_order: ByteOrder, bytes: &[u8], pos: usize) -> (r: Result<u16, Error>)
    ensures
        r == u16_read(byte_order, bytes@, pos as int),
{
    if pos > bytes.len() || bytes.len() - pos < 2 {
        return Err(Error::UnexpectedEof);
    }
    let part = slice_subrange(bytes, pos, pos + 2);
    match byte_order {
        ByteOrder::LittleEndian => Ok(le_u16(part)),
        ByteOrder::BigEndian => Ok(be_u16(part)),
    }
}

/// Reads the 32-bit integer at `pos` in the given byte order.
pub fn read_u32(byte_order: ByteOrder, bytes: &[u8], pos: usize) -> (r: Result<u32, Error>)
    ensures
        r == u32_read(byte_order, bytes@, pos as int),
{
    if pos > bytes.len() || bytes.len() - pos < 4 {
        return Err(Error::UnexpectedEof);
    }
    let part = slice_subrange(bytes, pos, pos + 4);
    match byte_order {
        ByteOrder::LittleEndian => Ok(le_u32(part)),
        ByteOrder::BigEndian => Ok(be_u32(part)),
    }
}

} // verus!
