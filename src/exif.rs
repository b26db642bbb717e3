//! The EXIF orientation parser: finds the Orientation tag in the first image
//! file directory of a raw APP1 payload.

use vstd::prelude::*;
use crate::endian::{read_u16, read_u32, u16_at, u32_at, Endian};
use crate::format::{has_prefix, tiff_be_magic, tiff_le_magic};

verus! {

/// Why a payload yields no orientation.
#[derive(Clone, Copy, PartialEq, Eq, Debug, Structural)]
pub enum ExifError {
    /// The payload is longer than an APP1 segment can be.
    TooLarge,
    /// The payload does not start with `Exif\0\0`.
    BadSignature,
    /// The TIFF header is neither `MM\0*` nor `II*\0`.
    BadByteOrderMark,
    /// The offset of the first directory lies beyond the segment ceiling.
    OffsetOutOfRange,
    /// A field that the scan needs lies past the end of the payload.
    Truncated,
    /// The Orientation entry is not a single SHORT.
    UnexpectedType,
    /// The Orientation value is outside `1..=8`.
    InvalidOrientationValue,
    /// The first directory has no Orientation entry.
    NotFound,
}

/// The largest payload accepted, and the largest directory offset.
pub const EXIF_MAX_LEN: usize = 65536;

/// The EXIF tag of the orientation entry.
pub const ORIENTATION_TAG: u16 = 0x0112;

/// The TIFF field type SHORT.
pub const TYPE_SHORT: u16 = 3;

/// `Exif\0\0`
pub open spec fn exif_magic() -> Seq<u8> {
    seq![0x45u8, 0x78u8, 0x69u8, 0x66u8, 0x00u8, 0x00u8]
}

/// The byte order that the four bytes after the EXIF signature announce.
pub open spec fn byte_order_of(b: Seq<u8>) -> Option<Endian> {
    if b.subrange(6, 10) == tiff_be_magic() {
        Some(Endian::Big)
    } else if b.subrange(6, 10) == tiff_le_magic() {
        Some(Endian::Little)
    } else {
        None
    }
}

/// The outcome of an Orientation entry whose tag stands at `pos`: its type
/// must be SHORT and its count 1, and its value must lie in `1..=8`.
pub open spec fn orientation_entry(b: Seq<u8>, e: Endian, pos: int) -> Result<i32, ExifError> {
    if pos + 8 > b.len() {
        Err(ExifError::Truncated)
    } else if u16_at(b, e, pos + 2) != 3 || u32_at(b, e, pos + 4) != 1 {
        Err(ExifError::UnexpectedType)
    } else if pos + 10 > b.len() {
        Err(ExifError::Truncated)
    } else if 1 <= u16_at(b, e, pos + 8) <= 8 {
        Ok(u16_at(b, e, pos + 8) as i32)
    } else {
        Err(ExifError::InvalidOrientationValue)
    }
}

/// The outcome of scanning `remaining` twelve-byte entries, the first of which
/// starts at `pos`. Entries with another tag are stepped over unread, so only
/// a tag that must be read can lie past the end.
pub open spec fn scan_entries(b: Seq<u8>, e: Endian, pos: int, remaining: int) -> Result<
    i32,
    ExifError,
>
    decreases remaining,
{
    if remaining <= 0 {
        Err(ExifError::NotFound)
    } else if pos + 2 > b.len() {
        Err(ExifError::Truncated)
    } else if u16_at(b, e, pos) != 0x0112 {
        scan_entries(b, e, pos + 12, remaining - 1)
    } else {
        orientation_entry(b, e, pos)
    }
}

/// The outcome of the scan once the byte order `e` is known: the directory
/// offset counts from the byte-order mark, six bytes into the payload.
pub open spec fn parse_directory(b: Seq<u8>, e: Endian) -> Result<i32, ExifError> {
    if b.len() < 14 {
        Err(ExifError::Truncated)
    } else if u32_at(b, e, 10) > 65536 {
        Err(ExifError::OffsetOutOfRange)
    } else if u32_at(b, e, 10) + 8 > b.len() {
        Err(ExifError::Truncated)
    } else {
        let ifd = u32_at(b, e, 10) + 6;
        scan_entries(b, e, ifd + 2, u16_at(b, e, ifd))
    }
}

/// The orientation code that an EXIF payload carries, or why it carries none.
pub open spec fn exif_orientation(b: Seq<u8>) -> Result<i32, ExifError> {
    if b.len() > 65536 {
        Err(ExifError::TooLarge)
    } else if !has_prefix(b, exif_magic()) {
        Err(ExifError::BadSignature)
    } else if b.len() < 10 {
        Err(ExifError::Truncated)
    } else {
        match byte_order_of(b) {
            Some(e) => parse_directory(b, e),
            None => Err(ExifError::BadByteOrderMark),
        }
    }
}

proof fn lemma_scan_entries_code(b: Seq<u8>, e: Endian, pos: int, remaining: int)
    ensures
        scan_entries(b, e, pos, remaining) matches Ok(code) ==> 1 <= code <= 8,
    decreases remaining,
{
    if remaining > 0 && pos + 2 <= b.len() && u16_at(b, e, pos) != 0x0112 {
        lemma_scan_entries_code(b, e, pos + 12, remaining - 1);
    }
}

/// The smallest payload that carries an orientation: the signature, the
/// header in byte order `e`, a directory right after the header, and in it
/// one entry with tag 0x0112, type SHORT, count 1 and the given value.
pub open spec fn orientation_segment(e: Endian, value: u16) -> Seq<u8> {
    let hi = (value / 0x100) as u8;
    let lo = (value % 0x100) as u8;
    match e {
        Endian::Big => seq![
            0x45u8, 0x78u8, 0x69u8, 0x66u8, 0x00u8, 0x00u8, 0x4du8, 0x4du8, 0x00u8, 0x2au8,
            0u8, 0u8, 0u8, 8u8, 0u8, 1u8, 0x01u8, 0x12u8, 0u8, 3u8, 0u8, 0u8, 0u8, 1u8,
            hi, lo, 0u8, 0u8,
        ],
        Endian::Little => seq![
            0x45u8, 0x78u8, 0x69u8, 0x66u8, 0x00u8, 0x00u8, 0x49u8, 0x49u8, 0x2au8, 0x00u8,
            8u8, 0u8, 0u8, 0u8, 1u8, 0u8, 0x12u8, 0x01u8, 3u8, 0u8, 1u8, 0u8, 0u8, 0u8,
            lo, hi, 0u8, 0u8,
        ],
    }
}

proof fn lemma_orientation_segment_parses(e: Endian, value: u16)
    ensures
        exif_orientation(orientation_segment(e, value)) == (if 1 <= value <= 8 {
            Ok::<i32, ExifError>(value as i32)
        } else {
            Err::<i32, ExifError>(ExifError::InvalidOrientationValue)
        }),
{
    let hi = (value / 0x100) as u8;
    let lo = (value % 0x100) as u8;
    assert(hi as int * 0x100 + lo as int == value);
    let b = orientation_segment(e, value);
    assert(b.len() == 28);
    assert(b.subrange(0, 6) =~= exif_magic());
    match e {
        Endian::Big => {
            assert(b.subrange(6, 10) =~= tiff_be_magic());
        },
        Endian::Little => {
            assert(b.subrange(6, 10) =~= tiff_le_magic());
            assert(b.subrange(6, 10)[0] != tiff_be_magic()[0]);
        },
    }
    assert(byte_order_of(b) == Some(e));
    assert(u32_at(b, e, 10) == 8);
    assert(u16_at(b, e, 14) == 1);
    assert(u16_at(b, e, 16) == 0x0112);
    assert(u16_at(b, e, 18) == 3);
    assert(u32_at(b, e, 20) == 1);
    assert(u16_at(b, e, 24) == value);
    assert(scan_entries(b, e, 16, 1) == orientation_entry(b, e, 16));
}

/// A minimal orientation payload parses to its value when that value is a
/// valid code, and to `InvalidOrientationValue` otherwise; the outcome is the
/// same in both byte orders.
pub proof fn lemma_orientation_segment_round_trip(e: Endian, value: u16)
    ensures
        exif_orientation(orientation_segment(e, value)) == (if 1 <= value <= 8 {
            Ok::<i32, ExifError>(value as i32)
        } else {
            Err::<i32, ExifError>(ExifError::InvalidOrientationValue)
        }),
        exif_orientation(orientation_segment(Endian::Big, value)) == exif_orientation(
            orientation_segment(Endian::Little, value),
        ),
{
    lemma_orientation_segment_parses(Endian::Big, value);
    lemma_orientation_segment_parses(Endian::Little, value);
}

fn bytes_equal_at(b: &[u8], pos: usize, expected: &[u8]) -> (r: bool)
    requires
        pos + expected@.len() <= b@.len(),
    ensures
        r == (b@.subrange(pos as int, pos + expected@.len()) == expected@),
{
    let len: usize = b.len();
    let mut i: usize = 0;
    while i < expected.len()
        invariant
            i <= expected@.len(),
            len == b@.len(),
            pos + expected@.len() <= len,
            forall|j: int| 0 <= j < i ==> b@[pos + j] == expected@[j],
        decreases expected@.len() - i,
    {
        if b[pos + i] != expected[i] {
            assert(b@.subrange(pos as int, pos + expected@.len())[i as int] != expected@[i as int]);
            return false;
        }
        i += 1;
    }
    assert(b@.subrange(pos as int, pos + expected@.len()) =~= expected@);
    true
}

fn read_orientation_entry(b: &[u8], e: Endian, pos: usize) -> (r: Result<i32, ExifError>)
    requires
        pos + 2 <= b@.len(),
    ensures
        r == orientation_entry(b@, e, pos as int),
{
    if b.len() - pos < 8 {
        return Err(ExifError::Truncated);
    }
    let ty = read_u16(b, e, pos + 2);
    let count = read_u32(b, e, pos + 4);
    if ty != TYPE_SHORT || count != 1 {
        return Err(ExifError::UnexpectedType);
    }
    if b.len() - pos < 10 {
        return Err(ExifError::Truncated);
    }
    let value = read_u16(b, e, pos + 8);
    if 1 <= value && value <= 8 {
        Ok(value as i32)
    } else {
        Err(ExifError::InvalidOrientationValue)
    }
}

/// Scans the first directory once the byte order is known.
fn read_directory(b: &[u8], e: Endian) -> (r: Result<i32, ExifError>)
    requires
        b@.len() <= 65536,
    ensures
        r == parse_directory(b@, e),
{
    if b.len() < 14 {
        return Err(ExifError::Truncated);
    }
    let offset = read_u32(b, e, 10);
    if offset as usize > EXIF_MAX_LEN {
        return Err(ExifError::OffsetOutOfRange);
    }
    let ifd = offset as usize + 6;
    if ifd + 2 > b.len() {
        return Err(ExifError::Truncated);
    }
    let count = read_u16(b, e, ifd);
    let mut pos: usize = ifd + 2;
    let mut i: u16 = 0;
    while i < count
        invariant
            b@.len() <= 65536,
            ifd <= 65542,
            i <= count,
            pos == ifd + 2 + 12 * i,
            parse_directory(b@, e) == scan_entries(b@, e, pos as int, count - i),
        decreases count - i,
    {
        if pos + 2 > b.len() {
            return Err(ExifError::Truncated);
        }
        let tag = read_u16(b, e, pos);
        if tag != ORIENTATION_TAG {
            pos = pos + 12;
            i = i + 1;
            continue;
        }
        return read_orientation_entry(b, e, pos);
    }
    Err(ExifError::NotFound)
}

/// The orientation code of a payload, or 0 when it carries none.
pub open spec fn orientation_or_zero(b: Seq<u8>) -> i32 {
    match exif_orientation(b) {
        Ok(code) => code,
        Err(_) => 0,
    }
}

/// The orientation code of a raw EXIF payload, or 0 when parsing fails for
/// any reason.
pub fn exif_orientation_code(raw_exif: &[u8]) -> (r: i32)
    ensures
        r == orientation_or_zero(raw_exif@),
        0 <= r <= 8,
{
    match parse_exif(raw_exif) {
        Ok(code) => code,
        Err(_) => 0,
    }
}

/// Parses a raw EXIF payload, signature included, into its orientation code.
///
/// The Orientation entry must be a single SHORT: a wrong type or a count
/// other than 1 is `UnexpectedType`.
pub fn parse_exif(raw_exif: &[u8]) -> (r: Result<i32, ExifError>)
    ensures
        r == exif_orientation(raw_exif@),
        raw_exif@.len() > 65536 ==> r == Err::<i32, ExifError>(ExifError::TooLarge),
        r matches Ok(code) ==> 1 <= code <= 8,
{
    if raw_exif.len() > EXIF_MAX_LEN {
        return Err(ExifError::TooLarge);
    }
    let exif_sig: [u8; 6] = [0x45, 0x78, 0x69, 0x66, 0x00, 0x00];
    assert(exif_sig@ =~= exif_magic());
    if raw_exif.len() < 6 || !bytes_equal_at(raw_exif, 0, &exif_sig) {
        return Err(ExifError::BadSignature);
    }
    if raw_exif.len() < 10 {
        return Err(ExifError::Truncated);
    }
    proof {
        let b = raw_exif@;
        let be_ifd = u32_at(b, Endian::Big, 10) + 6;
        let le_ifd = u32_at(b, Endian::Little, 10) + 6;
        lemma_scan_entries_code(b, Endian::Big, be_ifd + 2, u16_at(b, Endian::Big, be_ifd));
        lemma_scan_entries_code(b, Endian::Little, le_ifd + 2, u16_at(b, Endian::Little, le_ifd));
    }
    let tiff_be: [u8; 4] = [0x4d, 0x4d, 0x00, 0x2a];
    let tiff_le: [u8; 4] = [0x49, 0x49, 0x2a, 0x00];
    assert(tiff_be@ =~= tiff_be_magic());
    assert(tiff_le@ =~= tiff_le_magic());
    if bytes_equal_at(raw_exif, 6, &tiff_be) {
        read_directory(raw_exif, Endian::Big)
    } else if bytes_equal_at(raw_exif, 6, &tiff_le) {
        read_directory(raw_exif, Endian::Little)
    } else {
        Err(ExifError::BadByteOrderMark)
    }
}

} // verus!
