//! Guessing an image format from the leading bytes of a stream.

use vstd::prelude::*;

verus! {

/// The formats that the sniffer can recognize.
#[derive(Clone, Copy, PartialEq, Eq, Hash, Debug, Structural)]
pub enum ImageFormat {
    Bmp,
    Gif,
    Jpeg,
    Png,
    Tiff,
}

/// `b` begins with the bytes of `sig`.
pub open spec fn has_prefix(b: Seq<u8>, sig: Seq<u8>) -> bool {
    sig.len() <= b.len() && b.subrange(0, sig.len() as int) == sig
}

pub open spec fn jpeg_magic() -> Seq<u8> {
    seq![0xffu8, 0xd8u8, 0xffu8]
}

pub open spec fn png_magic() -> Seq<u8> {
    seq![0x89u8, 0x50u8, 0x4eu8, 0x47u8, 0x0du8, 0x0au8, 0x1au8, 0x0au8]
}

/// `GIF89a`
pub open spec fn gif89a_magic() -> Seq<u8> {
    seq![0x47u8, 0x49u8, 0x46u8, 0x38u8, 0x39u8, 0x61u8]
}

/// `GIF87a`
pub open spec fn gif87a_magic() -> Seq<u8> {
    seq![0x47u8, 0x49u8, 0x46u8, 0x38u8, 0x37u8, 0x61u8]
}

/// `BM`
pub open spec fn bmp_magic() -> Seq<u8> {
    seq![0x42u8, 0x4du8]
}

/// `II*\0`, the little-endian TIFF header.
pub open spec fn tiff_le_magic() -> Seq<u8> {
    seq![0x49u8, 0x49u8, 0x2au8, 0x00u8]
}

/// `MM\0*`, the big-endian TIFF header.
pub open spec fn tiff_be_magic() -> Seq<u8> {
    seq![0x4du8, 0x4du8, 0x00u8, 0x2au8]
}

/// `sig` is one of the magic signatures of format `f`.
pub open spec fn is_signature_of(f: ImageFormat, sig: Seq<u8>) -> bool {
    match f {
        ImageFormat::Jpeg => sig == jpeg_magic(),
        ImageFormat::Png => sig == png_magic(),
        ImageFormat::Gif => sig == gif89a_magic() || sig == gif87a_magic(),
        ImageFormat::Bmp => sig == bmp_magic(),
        ImageFormat::Tiff => sig == tiff_le_magic() || sig == tiff_be_magic(),
    }
}

/// The format whose signature `b` starts with, trying JPEG, PNG, GIF, BMP
/// and TIFF in that order.
pub open spec fn sniff_format(b: Seq<u8>) -> Option<ImageFormat> {
    if has_prefix(b, jpeg_magic()) {
        Some(ImageFormat::Jpeg)
    } else if has_prefix(b, png_magic()) {
        Some(ImageFormat::Png)
    } else if has_prefix(b, gif89a_magic()) || has_prefix(b, gif87a_magic()) {
        Some(ImageFormat::Gif)
    } else if has_prefix(b, bmp_magic()) {
        Some(ImageFormat::Bmp)
    } else if has_prefix(b, tiff_le_magic()) || has_prefix(b, tiff_be_magic()) {
        Some(ImageFormat::Tiff)
    } else {
        None
    }
}

fn starts_with(buf: &[u8], sig: &[u8]) -> (r: bool)
    ensures
        r == has_prefix(buf@, sig@),
{
    if sig.len() > buf.len() {
        return false;
    }
    let mut i: usize = 0;
    while i < sig.len()
        invariant
            i <= sig@.len() <= buf@.len(),
            forall|j: int| 0 <= j < i ==> buf@[j] == sig@[j],
        decreases sig@.len() - i,
    {
        if buf[i] != sig[i] {
            assert(buf@.subrange(0, sig@.len() as int)[i as int] != sig@[i as int]);
            return false;
        }
        i += 1;
    }
    assert(buf@.subrange(0, sig@.len() as int) =~= sig@);
    true
}

/// Guesses the format of `buf` from its magic signature. `None` means only
/// that the format is unknown; a buffer shorter than a signature never
/// matches it.
pub fn guess_image_format_from_magicnum(buf: &[u8]) -> (r: Option<ImageFormat>)
    ensures
        r == sniff_format(buf@),
{
    let jpeg: [u8; 3] = [0xff, 0xd8, 0xff];
    let png: [u8; 8] = [0x89, 0x50, 0x4e, 0x47, 0x0d, 0x0a, 0x1a, 0x0a];
    let gif89a: [u8; 6] = [0x47, 0x49, 0x46, 0x38, 0x39, 0x61];
    let gif87a: [u8; 6] = [0x47, 0x49, 0x46, 0x38, 0x37, 0x61];
    let bmp: [u8; 2] = [0x42, 0x4d];
    let tiff_le: [u8; 4] = [0x49, 0x49, 0x2a, 0x00];
    let tiff_be: [u8; 4] = [0x4d, 0x4d, 0x00, 0x2a];
    assert(jpeg@ =~= jpeg_magic());
    assert(png@ =~= png_magic());
    assert(gif89a@ =~= gif89a_magic());
    assert(gif87a@ =~= gif87a_magic());
    assert(bmp@ =~= bmp_magic());
    assert(tiff_le@ =~= tiff_le_magic());
    assert(tiff_be@ =~= tiff_be_magic());
    if starts_with(buf, &jpeg) {
        Some(ImageFormat::Jpeg)
    } else if starts_with(buf, &png) {
        Some(ImageFormat::Png)
    } else if starts_with(buf, &gif89a) || starts_with(buf, &gif87a) {
        Some(ImageFormat::Gif)
    } else if starts_with(buf, &bmp) {
        Some(ImageFormat::Bmp)
    } else if starts_with(buf, &tiff_le) || starts_with(buf, &tiff_be) {
        Some(ImageFormat::Tiff)
    } else {
        None
    }
}

/// A buffer that begins with a signature of `f` is recognized as `f`, for
/// every format: no two formats share a first byte, so the order in which
/// the signatures are tried never hides one behind another.
pub proof fn lemma_signature_selects_format(b: Seq<u8>, f: ImageFormat, sig: Seq<u8>)
    requires
        is_signature_of(f, sig),
        has_prefix(b, sig),
    ensures
        sniff_format(b) == Some(f),
{
    assert(b[0] == b.subrange(0, sig.len() as int)[0]);
    assert(sig[0] == b[0]);
}

/// A buffer that begins with no known signature has no format.
pub proof fn lemma_unmatched_buffer_has_no_format(b: Seq<u8>)
    requires
        forall|f: ImageFormat, sig: Seq<u8>| #[trigger] is_signature_of(f, sig) ==> !has_prefix(b, sig),
    ensures
        sniff_format(b) == None::<ImageFormat>,
{
    assert(is_signature_of(ImageFormat::Jpeg, jpeg_magic()));
    assert(is_signature_of(ImageFormat::Png, png_magic()));
    assert(is_signature_of(ImageFormat::Gif, gif89a_magic()));
    assert(is_signature_of(ImageFormat::Gif, gif87a_magic()));
    assert(is_signature_of(ImageFormat::Bmp, bmp_magic()));
    assert(is_signature_of(ImageFormat::Tiff, tiff_le_magic()));
    assert(is_signature_of(ImageFormat::Tiff, tiff_be_magic()));
}

/// A buffer shorter than the shortest signature has no format.
pub proof fn lemma_short_buffer_has_no_format(b: Seq<u8>)
    requires
        b.len() < 2,
    ensures
        sniff_format(b) == None::<ImageFormat>,
{
}

} // verus!
