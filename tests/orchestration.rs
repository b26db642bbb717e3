use colorimage::decode::{adapter_result, format_has_adapter};
use colorimage::{DecodeError, DecodeOrchestrator, DecodeStep, ImageFormat};

const PNG_HEADER: [u8; 12] = [0x89, 0x50, 0x4e, 0x47, 0x0d, 0x0a, 0x1a, 0x0a, 0, 0, 0, 13];

#[test]
fn png_decodes_with_one_attempt() {
    let mut orch = DecodeOrchestrator::new(&PNG_HEADER);
    assert_eq!(orch.next_step(), DecodeStep::Attempt(ImageFormat::Png));
    orch.record(Ok(()));
    assert_eq!(orch.next_step(), DecodeStep::Finished(Ok(ImageFormat::Png)));
}

#[test]
fn corrupt_png_falls_back_to_jpeg_then_fails() {
    let mut orch = DecodeOrchestrator::new(&PNG_HEADER);
    assert_eq!(orch.next_step(), DecodeStep::Attempt(ImageFormat::Png));
    orch.record(Err(DecodeError::NativeDecodeFailure(2)));
    assert_eq!(orch.next_step(), DecodeStep::Attempt(ImageFormat::Jpeg));
    orch.record(Err(DecodeError::NativeDecodeFailure(1)));
    assert_eq!(orch.next_step(), DecodeStep::Finished(Err(DecodeError::AllFormatsFailed)));
}

#[test]
fn mislabeled_png_is_decoded_by_jpeg() {
    let mut orch = DecodeOrchestrator::new(&PNG_HEADER);
    orch.record(Err(DecodeError::NativeDecodeFailure(2)));
    assert_eq!(orch.next_step(), DecodeStep::Attempt(ImageFormat::Jpeg));
    orch.record(Ok(()));
    assert_eq!(orch.next_step(), DecodeStep::Finished(Ok(ImageFormat::Jpeg)));
}

#[test]
fn unknown_bytes_try_jpeg_then_png() {
    let mut orch = DecodeOrchestrator::new(&[1, 2, 3, 4]);
    assert_eq!(orch.next_step(), DecodeStep::Attempt(ImageFormat::Jpeg));
    orch.record(Err(DecodeError::NativeDecodeFailure(1)));
    assert_eq!(orch.next_step(), DecodeStep::Attempt(ImageFormat::Png));
    orch.record(Ok(()));
    assert_eq!(orch.next_step(), DecodeStep::Finished(Ok(ImageFormat::Png)));
}

#[test]
fn recognized_format_without_decoder_does_not_block_fallback() {
    let mut orch = DecodeOrchestrator::new(b"GIF89a\x01\x00");
    assert_eq!(orch.next_step(), DecodeStep::Attempt(ImageFormat::Jpeg));
    orch.record(Err(DecodeError::UnsupportedFormat));
    assert_eq!(orch.next_step(), DecodeStep::Attempt(ImageFormat::Png));
    orch.record(Err(DecodeError::NativeDecodeFailure(3)));
    assert_eq!(orch.next_step(), DecodeStep::Finished(Err(DecodeError::AllFormatsFailed)));
}

#[test]
fn sniffed_jpeg_is_tried_first() {
    let orch = DecodeOrchestrator::for_format(Some(ImageFormat::Jpeg));
    assert_eq!(orch.next_step(), DecodeStep::Attempt(ImageFormat::Jpeg));
}

#[test]
fn only_jpeg_and_png_have_decoders() {
    assert!(format_has_adapter(ImageFormat::Jpeg));
    assert!(format_has_adapter(ImageFormat::Png));
    assert!(!format_has_adapter(ImageFormat::Gif));
    assert!(!format_has_adapter(ImageFormat::Bmp));
    assert!(!format_has_adapter(ImageFormat::Tiff));
}

#[test]
fn decoder_status_maps_to_result() {
    assert_eq!(adapter_result(0), Ok(()));
    assert_eq!(adapter_result(7), Err(DecodeError::NativeDecodeFailure(7)));
    assert_eq!(adapter_result(-1), Err(DecodeError::NativeDecodeFailure(-1)));
}
