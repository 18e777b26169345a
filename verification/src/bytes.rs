//! Little-endian fields of fixed width, read out of a buffer of bytes.
use crate::error::{fails_with, value_read_failure, Error};
use byteorder::{ByteOrder, LittleEndian};
use vstd::prelude::*;
use vstd::slice::slice_subrange;

verus! {

/// The number that the first two bytes of `b` hold, lowest byte first.
pub open spec fn le_u16(b: Seq<u8>) -> u16
    recommends
        b.len() >= 2,
{
    (b[0] as int + 0x100 * (b[1] as int)) as u16
}

/// The number that the first four bytes of `b` hold, lowest byte first.
pub open spec fn le_u32(b: Seq<u8>) -> u32
    recommends
        b.len() >= 4,
{
    (b[0] as int + 0x100 * (b[1] as int) + 0x1_0000 * (b[2] as int) + 0x100_0000 * (
    b[3] as int)) as u32
}

/// The number that the first eight bytes of `b` hold, lowest byte first.
pub open spec fn le_u64(b: Seq<u8>) -> u64
    recommends
        b.len() >= 8,
{
    (b[0] as int + 0x100 * (b[1] as int) + 0x1_0000 * (b[2] as int) + 0x100_0000 * (b[3] as int)
        + 0x1_0000_0000 * (b[4] as int) + 0x100_0000_0000 * (b[5] as int) + 0x1_0000_0000_0000 * (
    b[6] as int) + 0x100_0000_0000_0000 * (b[7] as int)) as u64
}

/// True when `b` holds `width` bytes from position `at` on.
pub open spec fn has_bytes(b: Seq<u8>, at: int, width: int) -> bool {
    0 <= at && at + width <= b.len()
}

/// The byte of `b` at position `at`.
pub open spec fn u8_at(b: Seq<u8>, at: int) -> u8
    recommends
        has_bytes(b, at, 1),
{
    b[at]
}

/// The two-byte little-endian number of `b` at position `at`.
pub open spec fn u16_at(b: Seq<u8>, at: int) -> u16
    recommends
        has_bytes(b, at, 2),
{
    le_u16(b.subrange(at, at + 2))
}

/// The four-byte little-endian number of `b` at position `at`.
pub open spec fn u32_at(b: Seq<u8>, at: int) -> u32
    recommends
        has_bytes(b, at, 4),
{
    le_u32(b.subrange(at, at + 4))
}

/// The eight-byte little-endian number of `b` at position `at`.
pub open spec fn u64_at(b: Seq<u8>, at: int) -> u64
    recommends
        has_bytes(b, at, 8),
{
    le_u64(b.subrange(at, at + 8))
}

/// `byteorder::LittleEndian::read_u16`: the first two bytes of `buf` as a
/// little-endian number. It panics on a shorter buffer.
#[verifier::external_body]
fn read_u16(buf: &[u8]) -> (v: u16)
    requires
        buf@.len() >= 2,
    ensures
        v == le_u16(buf@),
{
    LittleEndian::read_u16(buf)
}

/// `byteorder::LittleEndian::read_u32`: the first four bytes of `buf` as a
/// little-endian number. It panics on a shorter buffer.
#[verifier::external_body]
fn read_u32(buf: &[u8]) -> (v: u32)
    requires
        buf@.len() >= 4,
    ensures
        v == le_u32(buf@),
{
    LittleEndian::read_u32(buf)
}

/// `byteorder::LittleEndian::read_u64`: the first eight bytes of `buf` as a
/// little-endian number. It panics on a shorter buffer.
#[verifier::external_body]
fn read_u64(buf: &[u8]) -> (v: u64)
    requires
        buf@.len() >= 8,
    ensures
        v == le_u64(buf@),
{
    LittleEndian::read_u64(buf)
}

/// True when `buf` holds `width` bytes from position `at` on.
pub fn in_bounds(buf: &[u8], at: u64, width: u64) -> (b: bool)
    ensures
        b == has_bytes(buf@, at as int, width as int),
        buf@.len() <= usize::MAX,
{
    let len: u64 = buf.len() as u64;
    width <= len && at <= len - width
}

/// The position `n` as a 64-bit number, or the last position that such a
/// number can name where `n` does not fit.
pub open spec fn position(n: int) -> u64 {
    if n <= u64::MAX {
        n as u64
    } else {
        u64::MAX
    }
}

/// The position `delta` bytes after `base`, or the last position that a
/// number can name where the sum does not fit: no buffer holds a byte there.
pub fn advance(base: u64, delta: u64) -> (at: u64)
    ensures
        at == position(base + delta),
{
    base.saturating_add(delta)
}

/// The byte at position `at`, or the failure to read the field `name`.
pub fn field_u8(buf: &[u8], at: u64, name: &str) -> (r: Result<u8, Error>)
    ensures
        has_bytes(buf@, at as int, 1) ==> r == Ok::<u8, Error>(u8_at(buf@, at as int)),
        !has_bytes(buf@, at as int, 1) ==> fails_with(r, value_read_failure(name@, "read_u8"@)),
        buf@.len() <= usize::MAX,
{
    if in_bounds(buf, at, 1) {
        Ok(buf[at as usize])
    } else {
        Err(Error::value_read(name, "read_u8"))
    }
}

/// The two-byte number at position `at`, or the failure to read the field `name`.
pub fn field_u16(buf: &[u8], at: u64, name: &str) -> (r: Result<u16, Error>)
    ensures
        has_bytes(buf@, at as int, 2) ==> r == Ok::<u16, Error>(u16_at(buf@, at as int)),
        !has_bytes(buf@, at as int, 2) ==> fails_with(r, value_read_failure(name@, "read_u16"@)),
        buf@.len() <= usize::MAX,
{
    if in_bounds(buf, at, 2) {
        let start: usize = at as usize;
        Ok(read_u16(slice_subrange(buf, start, start + 2)))
    } else {
        Err(Error::value_read(name, "read_u16"))
    }
}

/// The four-byte number at position `at`, or the failure to read the field `name`.
pub fn field_u32(buf: &[u8], at: u64, name: &str) -> (r: Result<u32, Error>)
    ensures
        has_bytes(buf@, at as int, 4) ==> r == Ok::<u32, Error>(u32_at(buf@, at as int)),
        !has_bytes(buf@, at as int, 4) ==> fails_with(r, value_read_failure(name@, "read_u32"@)),
        buf@.len() <= usize::MAX,
{
    if in_bounds(buf, at, 4) {
        let start: usize = at as usize;
        Ok(read_u32(slice_subrange(buf, start, start + 4)))
    } else {
        Err(Error::value_read(name, "read_u32"))
    }
}

/// The eight-byte number at position `at`, or the failure to read the field `name`.
pub fn field_u64(buf: &[u8], at: u64, name: &str) -> (r: Result<u64, Error>)
    ensures
        has_bytes(buf@, at as int, 8) ==> r == Ok::<u64, Error>(u64_at(buf@, at as int)),
        !has_bytes(buf@, at as int, 8) ==> fails_with(r, value_read_failure(name@, "read_u64"@)),
        buf@.len() <= usize::MAX,
{
    if in_bounds(buf, at, 8) {
        let start: usize = at as usize;
        Ok(read_u64(slice_subrange(buf, start, start + 8)))
    } else {
        Err(Error::value_read(name, "read_u64"))
    }
}

} // verus!
