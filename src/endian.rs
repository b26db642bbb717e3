//! Fixed-width unsigned integers read from byte buffers in either byte order.

use vstd::prelude::*;
use byteorder::{BigEndian, ByteOrder, LittleEndian};

verus! {

/// The byte order of the fields that follow a TIFF header.
#[derive(Clone, Copy, PartialEq, Eq, Debug, Structural)]
pub enum Endian {
    Big,
    Little,
}

/// The 16-bit unsigned integer stored at `b[pos..pos + 2]` in byte order `e`.
pub open spec fn u16_at(b: Seq<u8>, e: Endian, pos: int) -> int {
    match e {
        Endian::Big => b[pos] as int * 0x100 + b[pos + 1] as int,
        Endian::Little => b[pos + 1] as int * 0x100 + b[pos] as int,
    }
}

/// The 32-bit unsigned integer stored at `b[pos..pos + 4]` in byte order `e`.
pub open spec fn u32_at(b: Seq<u8>, e: Endian, pos: int) -> int {
    match e {
        Endian::Big => b[pos] as int * 0x1000000 + b[pos + 1] as int * 0x10000 + b[pos + 2] as int
            * 0x100 + b[pos + 3] as int,
        Endian::Little => b[pos + 3] as int * 0x1000000 + b[pos + 2] as int * 0x10000 + b[pos
            + 1] as int * 0x100 + b[pos] as int,
    }
}

/// Relies on byteorder's `BigEndian::read_u16`: the first two bytes of the
/// slice it is given, most significant first (it panics on fewer than two).
#[verifier::external_body]
fn read_u16_be(b: &[u8], pos: usize) -> (r: u16)
    requires
        pos + 2 <= b@.len(),
    ensures
        r as int == u16_at(b@, Endian::Big, pos as int),
{
    BigEndian::read_u16(&b[pos..])
}

/// Relies on byteorder's `LittleEndian::read_u16`: the first two bytes of the
/// slice it is given, least significant first (it panics on fewer than two).
#[verifier::external_body]
fn read_u16_le(b: &[u8], pos: usize) -> (r: u16)
    requires
        pos + 2 <= b@.len(),
    ensures
        r as int == u16_at(b@, Endian::Little, pos as int),
{
    LittleEndian::read_u16(&b[pos..])
}

/// Relies on byteorder's `BigEndian::read_u32`: the first four bytes of the
/// slice it is given, most significant first (it panics on fewer than four).
#[verifier::external_body]
fn read_u32_be(b: &[u8], pos: usize) -> (r: u32)
    requires
        pos + 4 <= b@.len(),
    ensures
        r as int == u32_at(b@, Endian::Big, pos as int),
{
    BigEndian::read_u32(&b[pos..])
}

/// Relies on byteorder's `LittleEndian::read_u32`: the first four bytes of the
/// slice it is given, least significant first (it panics on fewer than four).
#[verifier::external_body]
fn read_u32_le(b: &[u8], pos: usize) -> (r: u32)
    requires
        pos + 4 <= b@.len(),
    ensures
        r as int == u32_at(b@, Endian::Little, pos as int),
{
    LittleEndian::read_u32(&b[pos..])
}

/// Reads the 16-bit field at `pos` in byte order `e`.
pub fn read_u16(b: &[u8], e: Endian, pos: usize) -> (r: u16)
    requires
        pos + 2 <= b@.len(),
    ensures
        r as int == u16_at(b@, e, pos as int),
{
    match e {
        Endian::Big => read_u16_be(b, pos),
        Endian::Little => read_u16_le(b, pos),
    }
}

/// Reads the 32-bit field at `pos` in byte order `e`.
pub fn read_u32(b: &[u8], e: Endian, pos: usize) -> (r: u32)
    requires
        pos + 4 <= b@.len(),
    ensures
        r as int == u32_at(b@, e, pos as int),
{
    match e {
        Endian::Big => read_u32_be(b, pos),
        Endian::Little => read_u32_le(b, pos),
    }
}

} // verus!
