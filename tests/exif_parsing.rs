use colorimage::exif::exif_orientation_code;
use colorimage::{parse_exif, ExifError};

fn segment_be(tag: u16, ty: u16, count: u32, value: u16) -> Vec<u8> {
    let mut b = b"Exif\0\0MM\0*".to_vec();
    b.extend_from_slice(&8u32.to_be_bytes());
    b.extend_from_slice(&1u16.to_be_bytes());
    b.extend_from_slice(&tag.to_be_bytes());
    b.extend_from_slice(&ty.to_be_bytes());
    b.extend_from_slice(&count.to_be_bytes());
    b.extend_from_slice(&value.to_be_bytes());
    b.extend_from_slice(&[0, 0]);
    b
}

fn segment_le(tag: u16, ty: u16, count: u32, value: u16) -> Vec<u8> {
    let mut b = b"Exif\0\0II*\0".to_vec();
    b.extend_from_slice(&8u32.to_le_bytes());
    b.extend_from_slice(&1u16.to_le_bytes());
    b.extend_from_slice(&tag.to_le_bytes());
    b.extend_from_slice(&ty.to_le_bytes());
    b.extend_from_slice(&count.to_le_bytes());
    b.extend_from_slice(&value.to_le_bytes());
    b.extend_from_slice(&[0, 0]);
    b
}

#[test]
fn big_endian_orientation_six() {
    assert_eq!(parse_exif(&segment_be(0x0112, 3, 1, 6)), Ok(6));
}

#[test]
fn little_endian_orientation_six_matches_big_endian() {
    let le = parse_exif(&segment_le(0x0112, 3, 1, 6));
    assert_eq!(le, Ok(6));
    assert_eq!(le, parse_exif(&segment_be(0x0112, 3, 1, 6)));
}

#[test]
fn every_valid_code_round_trips_in_both_orders() {
    for v in 1u16..=8 {
        assert_eq!(parse_exif(&segment_be(0x0112, 3, 1, v)), Ok(v as i32));
        assert_eq!(parse_exif(&segment_le(0x0112, 3, 1, v)), Ok(v as i32));
    }
}

#[test]
fn out_of_range_values_are_invalid() {
    for v in [0u16, 9, 255] {
        assert_eq!(parse_exif(&segment_be(0x0112, 3, 1, v)), Err(ExifError::InvalidOrientationValue));
        assert_eq!(parse_exif(&segment_le(0x0112, 3, 1, v)), Err(ExifError::InvalidOrientationValue));
    }
}

#[test]
fn byte_order_decides_how_the_value_is_read() {
    // The bytes 00 06 read little-endian are 0x0600, which is no valid code.
    let mut b = segment_le(0x0112, 3, 1, 0);
    b[24] = 0x00;
    b[25] = 0x06;
    assert_eq!(parse_exif(&b), Err(ExifError::InvalidOrientationValue));
    b[24] = 0x06;
    b[25] = 0x00;
    assert_eq!(parse_exif(&b), Ok(6));
}

#[test]
fn oversized_segment_is_too_large() {
    let mut b = segment_be(0x0112, 3, 1, 6);
    b.resize(70000, 0);
    assert_eq!(parse_exif(&b), Err(ExifError::TooLarge));
}

#[test]
fn segment_at_the_ceiling_is_accepted() {
    let mut b = segment_be(0x0112, 3, 1, 3);
    b.resize(65536, 0);
    assert_eq!(parse_exif(&b), Ok(3));
}

#[test]
fn missing_signature_is_rejected() {
    assert_eq!(parse_exif(b"Exif\0"), Err(ExifError::BadSignature));
    assert_eq!(parse_exif(b""), Err(ExifError::BadSignature));
    let mut b = segment_be(0x0112, 3, 1, 6);
    b[0] = b'e';
    assert_eq!(parse_exif(&b), Err(ExifError::BadSignature));
}

#[test]
fn unknown_byte_order_is_rejected() {
    let mut b = segment_be(0x0112, 3, 1, 6);
    b[6] = b'X';
    assert_eq!(parse_exif(&b), Err(ExifError::BadByteOrderMark));
}

#[test]
fn far_directory_offset_is_rejected() {
    let mut b = segment_be(0x0112, 3, 1, 6);
    b[10..14].copy_from_slice(&65537u32.to_be_bytes());
    assert_eq!(parse_exif(&b), Err(ExifError::OffsetOutOfRange));
}

#[test]
fn truncated_payloads_are_rejected() {
    assert_eq!(parse_exif(b"Exif\0\0MM"), Err(ExifError::Truncated));
    assert_eq!(parse_exif(b"Exif\0\0MM\0*\0\0"), Err(ExifError::Truncated));
    let b = segment_be(0x0112, 3, 1, 6);
    assert_eq!(parse_exif(&b[..15]), Err(ExifError::Truncated));
    assert_eq!(parse_exif(&b[..20]), Err(ExifError::Truncated));
    assert_eq!(parse_exif(&b[..25]), Err(ExifError::Truncated));
    let mut far = b.clone();
    far[10..14].copy_from_slice(&100u32.to_be_bytes());
    assert_eq!(parse_exif(&far), Err(ExifError::Truncated));
}

#[test]
fn wrong_type_or_count_is_unexpected() {
    assert_eq!(parse_exif(&segment_be(0x0112, 4, 1, 6)), Err(ExifError::UnexpectedType));
    assert_eq!(parse_exif(&segment_be(0x0112, 3, 2, 6)), Err(ExifError::UnexpectedType));
    assert_eq!(parse_exif(&segment_le(0x0112, 4, 2, 6)), Err(ExifError::UnexpectedType));
}

#[test]
fn directory_without_orientation_is_not_found() {
    assert_eq!(parse_exif(&segment_be(0x010f, 2, 6, 6)), Err(ExifError::NotFound));
}

#[test]
fn other_entries_are_skipped() {
    let mut b = b"Exif\0\0MM\0*".to_vec();
    b.extend_from_slice(&8u32.to_be_bytes());
    b.extend_from_slice(&2u16.to_be_bytes());
    b.extend_from_slice(&[0x01, 0x0f, 0, 2, 0, 0, 0, 4, 0, 0, 0, 0x40]);
    b.extend_from_slice(&[0x01, 0x12, 0, 3, 0, 0, 0, 1, 0, 8, 0, 0]);
    assert_eq!(parse_exif(&b), Ok(8));
}

#[test]
fn orientation_code_is_zero_on_failure() {
    assert_eq!(exif_orientation_code(&segment_be(0x0112, 3, 1, 5)), 5);
    assert_eq!(exif_orientation_code(&segment_be(0x0112, 3, 1, 9)), 0);
    assert_eq!(exif_orientation_code(b"JFIF"), 0);
}
