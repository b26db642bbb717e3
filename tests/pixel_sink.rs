use colorimage::{ColorImage, ImageWriter, RasterImage, ResampleFilter};

fn exif_with_orientation(code: u16) -> Vec<u8> {
    let mut b = b"Exif\0\0MM\0*".to_vec();
    b.extend_from_slice(&[0, 0, 0, 8, 0, 1, 0x01, 0x12, 0, 3, 0, 0, 0, 1]);
    b.extend_from_slice(&code.to_be_bytes());
    b.extend_from_slice(&[0, 0]);
    b
}

fn dump(img: &RasterImage) -> Vec<u8> {
    let mut buf = vec![0u8; img.width() * img.height() * 3];
    img.dump_pixels(&mut buf);
    buf
}

#[test]
fn rows_arrive_in_order_each_once() {
    let mut img = RasterImage::new();
    img.init_size(2, 3);
    assert!(!img.is_complete());
    for y in 0..3usize {
        assert!(img.accepts_row(y, 2));
        let v = (y * 10) as u8;
        img.write_row_rgb(y, &[v, v + 1, v + 2, v + 3, v + 4, v + 5], 2);
    }
    assert!(img.is_complete());
    assert_eq!(
        dump(&img),
        vec![0, 1, 2, 3, 4, 5, 10, 11, 12, 13, 14, 15, 20, 21, 22, 23, 24, 25]
    );
}

#[test]
fn protocol_violations_are_refused() {
    let mut img = RasterImage::new();
    assert!(!img.accepts_row(0, 2));
    img.init_size(2, 2);
    assert!(!img.accepts_row(1, 2));
    assert!(!img.accepts_row(0, 3));
    img.write_row_rgb(0, &[1, 2, 3, 4, 5, 6], 2);
    assert!(!img.accepts_row(0, 2));
    assert!(img.accepts_row(1, 2));
    img.write_row_rgb(1, &[1, 2, 3, 4, 5, 6], 2);
    assert!(!img.accepts_row(2, 2));
}

#[test]
fn unwritten_rows_are_black() {
    let mut img = RasterImage::new();
    img.init_size(2, 2);
    assert_eq!(dump(&img), vec![0; 12]);
}

#[test]
fn gray_rows_are_replicated() {
    let mut img = RasterImage::new();
    img.init_size(3, 1);
    img.write_row_gray(0, &[7, 8, 9], 3);
    assert_eq!(dump(&img), vec![7, 7, 7, 8, 8, 8, 9, 9, 9]);
}

#[test]
fn gray_alpha_rows_drop_alpha() {
    let mut img = RasterImage::new();
    img.init_size(2, 1);
    img.write_row_grayx(0, &[7, 200, 9, 100], 2);
    assert_eq!(dump(&img), vec![7, 7, 7, 9, 9, 9]);
}

#[test]
fn rgbx_rows_drop_the_fourth_byte() {
    let mut img = RasterImage::new();
    img.init_size(2, 1);
    img.write_row_rgbx(0, &[1, 2, 3, 255, 4, 5, 6, 255], 2);
    assert_eq!(dump(&img), vec![1, 2, 3, 4, 5, 6]);
}

#[test]
fn raster_reports_exif_code_without_keeping_it() {
    let mut img = RasterImage::new();
    assert_eq!(img.parse_exif(&exif_with_orientation(6)), 6);
    assert_eq!(img.parse_exif(&exif_with_orientation(0)), 0);
    assert_eq!(img.parse_exif(b"garbage"), 0);
}

fn two_by_one() -> ColorImage {
    let mut img = ColorImage::new();
    img.init_size(2, 1);
    img.write_row_rgb(0, &[1, 2, 3, 4, 5, 6], 2);
    img
}

fn color_dump(img: &ColorImage) -> Vec<u8> {
    let mut buf = vec![0u8; img.width() * img.height() * 3];
    img.dump_pixels(&mut buf);
    buf
}

#[test]
fn color_image_keeps_valid_orientation_only() {
    let mut img = two_by_one();
    assert_eq!(img.parse_exif(&exif_with_orientation(6)), 6);
    assert_eq!(img.orientation(), Some(6));
    assert_eq!(img.parse_exif(&exif_with_orientation(9)), 0);
    assert_eq!(img.orientation(), None);
}

#[test]
fn orientation_six_turns_clockwise() {
    let mut img = two_by_one();
    img.parse_exif(&exif_with_orientation(6));
    img.apply_exif_orientation();
    assert_eq!(img.orientation(), None);
    assert_eq!((img.width(), img.height()), (1, 2));
    assert_eq!(color_dump(&img), vec![1, 2, 3, 4, 5, 6]);
}

#[test]
fn orientation_corrections_on_a_two_by_two_image() {
    // Pixels a b / c d, each pixel given by its red byte.
    let start = || {
        let mut img = ColorImage::new();
        img.init_size(2, 2);
        img.write_row_rgb(0, &[1, 0, 0, 2, 0, 0], 2);
        img.write_row_rgb(1, &[3, 0, 0, 4, 0, 0], 2);
        img
    };
    let expected: [(u16, [u8; 4]); 8] = [
        (1, [1, 2, 3, 4]),
        (2, [2, 1, 4, 3]),
        (3, [4, 3, 2, 1]),
        (4, [3, 4, 1, 2]),
        (5, [1, 3, 2, 4]),
        (6, [3, 1, 4, 2]),
        (7, [4, 2, 3, 1]),
        (8, [2, 4, 1, 3]),
    ];
    for (code, reds) in expected {
        let mut img = start();
        img.parse_exif(&exif_with_orientation(code));
        img.apply_exif_orientation();
        let px = color_dump(&img);
        assert_eq!([px[0], px[3], px[6], px[9]], reds, "orientation {}", code);
    }
}

#[test]
fn no_orientation_leaves_pixels() {
    let mut img = two_by_one();
    img.apply_exif_orientation();
    assert_eq!(color_dump(&img), vec![1, 2, 3, 4, 5, 6]);
}

#[test]
fn crop_keeps_the_rectangle() {
    let mut img = ColorImage::new();
    img.init_size(3, 2);
    img.write_row_rgb(0, &[1, 1, 1, 2, 2, 2, 3, 3, 3], 3);
    img.write_row_rgb(1, &[4, 4, 4, 5, 5, 5, 6, 6, 6], 3);
    img.crop(1, 0, 2, 2);
    assert_eq!((img.width(), img.height()), (2, 2));
    assert_eq!(color_dump(&img), vec![2, 2, 2, 3, 3, 3, 5, 5, 5, 6, 6, 6]);
}

#[test]
fn planes_separate_channels() {
    let img = two_by_one();
    let mut buf = vec![0u8; 6];
    img.dump_planes(&mut buf);
    assert_eq!(buf, vec![1, 4, 2, 5, 3, 6]);
    assert_eq!(img.channels(), 3);
}

#[test]
fn resize_to_same_size_needs_no_filter() {
    let img = two_by_one();
    assert_eq!(img.resize_filter(2, 1), None);
    assert_eq!(img.resize_filter(2, 1), None);
    assert_eq!(color_dump(&img), vec![1, 2, 3, 4, 5, 6]);
}

#[test]
fn resize_to_same_size_is_a_no_op_twice() {
    let mut img = two_by_one();
    img.resize(2, 1, &[]);
    img.resize(2, 1, &[9, 9, 9, 9, 9, 9]);
    assert_eq!((img.width(), img.height()), (2, 1));
    assert_eq!(color_dump(&img), vec![1, 2, 3, 4, 5, 6]);
}

#[test]
fn resize_installs_the_resampled_pixels() {
    let mut img = two_by_one();
    img.resize(1, 1, &[7, 8, 9]);
    assert_eq!((img.width(), img.height()), (1, 1));
    assert_eq!(color_dump(&img), vec![7, 8, 9]);
}

#[test]
fn shrinking_uses_box_and_growing_uses_bicubic() {
    let mut img = ColorImage::new();
    img.init_size(4, 4);
    assert_eq!(img.resize_filter(2, 2), Some(ResampleFilter::BoxAverage));
    assert_eq!(img.resize_filter(4, 1), Some(ResampleFilter::BoxAverage));
    assert_eq!(img.resize_filter(8, 8), Some(ResampleFilter::Bicubic));
    assert_eq!(img.resize_filter(2, 5), Some(ResampleFilter::Bicubic));
}

#[test]
fn replaced_pixels_become_the_image() {
    let mut img = two_by_one();
    img.replace_pixels(1, 2, &[9, 8, 7, 6, 5, 4]);
    assert_eq!((img.width(), img.height()), (1, 2));
    assert!(img.is_complete());
    assert_eq!(color_dump(&img), vec![9, 8, 7, 6, 5, 4]);
}
