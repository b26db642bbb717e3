use colorimage::{ColorMgmt, ImageFormat, NSJpegDecoder, NSPngDecoder};

#[test]
fn context_is_lent_to_one_decode_at_a_time() {
    let mut cm = ColorMgmt::new();
    assert!(!cm.is_initialized());
    assert_eq!(cm.acquire(), None);
    cm.install(42);
    assert!(cm.is_initialized());
    assert_eq!(cm.acquire(), Some(42));
    assert!(cm.is_in_use());
    assert_eq!(cm.acquire(), None);
    cm.release();
    assert_eq!(cm.acquire(), Some(42));
    cm.release();
    assert_eq!(cm.take_context(), Some(42));
    assert!(!cm.is_initialized());
}

#[test]
fn decoder_settings() {
    let j = NSJpegDecoder::new(true);
    assert!(j.is_color_managed());
    assert_eq!(j.format(), ImageFormat::Jpeg);
    let p = NSPngDecoder::new(false);
    assert!(!p.is_color_managed());
    assert_eq!(p.format(), ImageFormat::Png);
}
