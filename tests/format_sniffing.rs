use colorimage::{guess_image_format_from_magicnum, ImageFormat};

#[test]
fn jpeg_signature_is_recognized() {
    let buf = [0xff, 0xd8, 0xff, 0xe0, 0x00, 0x10];
    assert_eq!(guess_image_format_from_magicnum(&buf), Some(ImageFormat::Jpeg));
}

#[test]
fn png_signature_is_recognized() {
    let buf = [0x89, 0x50, 0x4e, 0x47, 0x0d, 0x0a, 0x1a, 0x0a, 0x00, 0x00];
    assert_eq!(guess_image_format_from_magicnum(&buf), Some(ImageFormat::Png));
}

#[test]
fn gif_signatures_are_recognized() {
    assert_eq!(guess_image_format_from_magicnum(b"GIF89a\x01\x00"), Some(ImageFormat::Gif));
    assert_eq!(guess_image_format_from_magicnum(b"GIF87a"), Some(ImageFormat::Gif));
}

#[test]
fn bmp_signature_is_recognized() {
    assert_eq!(guess_image_format_from_magicnum(b"BM\x00\x00"), Some(ImageFormat::Bmp));
    assert_eq!(guess_image_format_from_magicnum(b"BM"), Some(ImageFormat::Bmp));
}

#[test]
fn tiff_signatures_are_recognized() {
    assert_eq!(guess_image_format_from_magicnum(b"II*\x00\x08"), Some(ImageFormat::Tiff));
    assert_eq!(guess_image_format_from_magicnum(b"MM\x00*\x00"), Some(ImageFormat::Tiff));
}

#[test]
fn unknown_bytes_have_no_format() {
    assert_eq!(guess_image_format_from_magicnum(&[0x12, 0x34, 0x56, 0x78, 0x9a, 0xbc, 0xde, 0xf0]), None);
    assert_eq!(guess_image_format_from_magicnum(b"GIF88a"), None);
    assert_eq!(guess_image_format_from_magicnum(b"MM*\x00"), None);
}

#[test]
fn short_buffers_have_no_format() {
    assert_eq!(guess_image_format_from_magicnum(&[]), None);
    assert_eq!(guess_image_format_from_magicnum(&[0xff]), None);
    assert_eq!(guess_image_format_from_magicnum(&[0xff, 0xd8]), None);
    assert_eq!(guess_image_format_from_magicnum(&[0x89, 0x50, 0x4e, 0x47]), None);
    assert_eq!(guess_image_format_from_magicnum(b"B"), None);
}
