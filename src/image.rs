//! The color-managed image buffer: assembles the rows a decoder delivers,
//! keeps the EXIF orientation, and corrects it once the decode is done.

use vstd::prelude::*;
use crate::exif::exif_orientation_code;
use crate::raster::{
    interleaved, orientation_source, oriented_size, pixel_of, planar, raster_sink_state, raster_wf,
    RasterImage, RasterView,
};
use crate::sink::{source_sample, ImageWriter, RowLayout, SinkState};

verus! {

/// The filter with which an image is resampled to a new size.
#[derive(Clone, Copy, PartialEq, Eq, Debug, Structural)]
pub enum ResampleFilter {
    /// Area averaging, for shrinking.
    BoxAverage,
    /// Bicubic interpolation, for growing.
    Bicubic,
}

/// How an image of `w` by `h` is resized to `nw` by `nh`: not at all when the
/// size is unchanged, by area averaging when neither side grows, and by
/// bicubic interpolation when either side grows.
pub open spec fn resize_filter_for(w: nat, h: nat, nw: nat, nh: nat) -> Option<ResampleFilter> {
    if nw == w && nh == h {
        None
    } else if nw <= w && nh <= h {
        Some(ResampleFilter::BoxAverage)
    } else {
        Some(ResampleFilter::Bicubic)
    }
}

/// The complete `w` by `h` raster whose pixels are `bytes`, row after row,
/// each pixel as red, green and blue.
pub open spec fn raster_from_bytes(w: nat, h: nat, bytes: Seq<u8>) -> RasterView {
    RasterView {
        sized: true,
        width: w,
        height: h,
        rows: Seq::new(h, |y: int| chunk(bytes, 3 * w as int, y)),
        rows_written: h,
    }
}

/// The image after a resize to `nw` by `nh` whose resampler, when one runs,
/// produced `resampled`.
pub open spec fn resized(v: RasterView, nw: nat, nh: nat, resampled: RasterView) -> RasterView {
    if resize_filter_for(v.width, v.height, nw, nh) is None {
        v
    } else {
        resampled
    }
}

/// A resize to the size an image already has leaves it as it is, whatever a
/// resampler would produce, and doing it twice is the same as doing it once.
pub proof fn lemma_resize_to_same_size(v: RasterView, r1: RasterView, r2: RasterView)
    ensures
        resize_filter_for(v.width, v.height, v.width, v.height) is None,
        resized(v, v.width, v.height, r1) == v,
        resized(resized(v, v.width, v.height, r1), v.width, v.height, r2) == resized(
            v,
            v.width,
            v.height,
            r1,
        ),
{
}

/// The `i`-th run of `n` bytes of `s`.
pub open spec fn chunk(s: Seq<u8>, n: int, i: int) -> Seq<u8> {
    s.subrange(n * i, n * (i + 1))
}

/// A decoded image in RGB, with the orientation its EXIF data asked for.
pub struct ColorImage {
    pixels: RasterImage,
    exif_rot: Option<i32>,
}

/// The contents of a [`ColorImage`].
pub struct ColorView {
    pub raster: RasterView,
    /// The orientation code still to be corrected, if any.
    pub exif_rot: Option<i32>,
}

pub open spec fn color_wf(v: ColorView) -> bool {
    &&& raster_wf(v.raster)
    &&& v.exif_rot matches Some(code) ==> 1 <= code <= 8
}

impl View for ColorImage {
    type V = ColorView;

    closed spec fn view(&self) -> ColorView {
        ColorView { raster: self.pixels@, exif_rot: self.exif_rot }
    }
}

impl ColorImage {
    /// An image whose size has not been set yet.
    pub fn new() -> (r: Self)
        ensures
            color_wf(r@),
            !r@.raster.sized,
            r@.exif_rot == None::<i32>,
    {
        ColorImage { pixels: RasterImage::new(), exif_rot: None }
    }

    pub fn width(&self) -> (r: usize)
        requires
            self@.raster.sized,
        ensures
            r == self@.raster.width,
    {
        self.pixels.width()
    }

    pub fn height(&self) -> (r: usize)
        requires
            self@.raster.sized,
        ensures
            r == self@.raster.height,
    {
        self.pixels.height()
    }

    /// Samples per pixel: red, green and blue.
    pub fn channels(&self) -> (r: usize)
        requires
            self@.raster.sized,
        ensures
            r == 3,
    {
        3
    }

    /// The orientation code still to be corrected, if any.
    pub fn orientation(&self) -> (r: Option<i32>)
        ensures
            r == self@.exif_rot,
    {
        self.exif_rot
    }

    /// Whether every row has been delivered.
    pub fn is_complete(&self) -> (r: bool)
        ensures
            r == (self@.raster.sized && self@.raster.rows_written == self@.raster.height),
    {
        self.pixels.is_complete()
    }

    /// Copies the pixels into `buf`, row after row, each pixel as red, green
    /// and blue.
    pub fn dump_pixels(&self, buf: &mut [u8])
        requires
            color_wf(self@),
            self@.raster.sized,
            old(buf)@.len() == self@.raster.width * self@.raster.height * 3,
        ensures
            final(buf)@ == interleaved(self@.raster),
    {
        self.pixels.dump_pixels(buf);
    }

    /// Copies the pixels into `buf` as a red, a green and a blue plane.
    pub fn dump_planes(&self, buf: &mut [u8])
        requires
            color_wf(self@),
            self@.raster.sized,
            old(buf)@.len() == self@.raster.width * self@.raster.height * 3,
        ensures
            final(buf)@ == planar(self@.raster),
    {
        self.pixels.dump_planes(buf);
    }

    /// Keeps the `new_width` by `new_height` rectangle whose top left corner
    /// is at column `x`, row `y`.
    pub fn crop(&mut self, x: usize, y: usize, new_width: usize, new_height: usize)
        requires
            color_wf(old(self)@),
            old(self)@.raster.sized,
            1 <= new_width,
            1 <= new_height,
            x + new_width <= old(self)@.raster.width,
            y + new_height <= old(self)@.raster.height,
        ensures
            color_wf(final(self)@),
            final(self)@.exif_rot == old(self)@.exif_rot,
            final(self)@.raster.sized,
            final(self)@.raster.width == new_width,
            final(self)@.raster.height == new_height,
            final(self)@.raster.rows_written == new_height,
            forall|i: int, j: int, c: int|
                0 <= i < new_width && 0 <= j < new_height && 0 <= c < 3 ==> #[trigger] pixel_of(final(self)@.raster, i, j, c)
                    == pixel_of(old(self)@.raster, x + i, y + j, c),
    {
        self.pixels.crop(x, y, new_width, new_height);
    }

    /// The filter that a resize to `new_width` by `new_height` needs; `None`
    /// when the size is unchanged and the resize leaves the image alone.
    pub fn resize_filter(&self, new_width: usize, new_height: usize) -> (r: Option<ResampleFilter>)
        requires
            self@.raster.sized,
        ensures
            r == resize_filter_for(self@.raster.width, self@.raster.height, new_width as nat, new_height as nat),
    {
        let w = self.pixels.width();
        let h = self.pixels.height();
        if new_width == w && new_height == h {
            None
        } else if new_width <= w && new_height <= h {
            Some(ResampleFilter::BoxAverage)
        } else {
            Some(ResampleFilter::Bicubic)
        }
    }

    /// Resizes the image to `new_width` by `new_height`. When the size
    /// changes, `resampled` holds the pixels that the filter named by
    /// `resize_filter` produced, row after row; when it does not, the image
    /// is left as it is and `resampled` is not read.
    pub fn resize(&mut self, new_width: usize, new_height: usize, resampled: &[u8])
        requires
            color_wf(old(self)@),
            old(self)@.raster.sized,
            resize_filter_for(old(self)@.raster.width, old(self)@.raster.height, new_width as nat, new_height as nat) is Some
                ==> {
                &&& 1 <= new_width
                &&& 1 <= new_height
                &&& new_width * new_height * 3 <= usize::MAX
                &&& resampled@.len() == new_width * new_height * 3
            },
        ensures
            color_wf(final(self)@),
            final(self)@.exif_rot == old(self)@.exif_rot,
            final(self)@.raster == resized(
                old(self)@.raster,
                new_width as nat,
                new_height as nat,
                raster_from_bytes(new_width as nat, new_height as nat, resampled@),
            ),
    {
        if self.resize_filter(new_width, new_height).is_none() {
            return;
        }
        self.replace_pixels(new_width, new_height, resampled);
    }

    /// Replaces the pixels by `width` by `height` pixels given row after row,
    /// each as red, green and blue, as a resampler produces them.
    pub fn replace_pixels(&mut self, width: usize, height: usize, pixels: &[u8])
        requires
            color_wf(old(self)@),
            1 <= width,
            1 <= height,
            width * height * 3 <= usize::MAX,
            pixels@.len() == width * height * 3,
        ensures
            color_wf(final(self)@),
            final(self)@.exif_rot == old(self)@.exif_rot,
            final(self)@.raster.sized,
            final(self)@.raster.width == width,
            final(self)@.raster.height == height,
            final(self)@.raster.rows_written == height,
            forall|y: int| 0 <= y < height ==> #[trigger] final(self)@.raster.rows[y] == chunk(pixels@, 3 * width, y),
            final(self)@.raster == raster_from_bytes(width as nat, height as nat, pixels@),
    {
        let mut img = RasterImage::new();
        img.init_size(width, height);
        assert(3 * width <= width * height * 3) by (nonlinear_arith)
            requires
                1 <= height,
        ;
        let row_len = 3 * width;
        let mut y: usize = 0;
        while y < height
            invariant
                raster_wf(img@),
                img@.sized,
                img@.width == width,
                img@.height == height,
                img@.rows_written == y,
                y <= height,
                row_len == 3 * width,
                width * height * 3 <= usize::MAX,
                pixels@.len() == width * height * 3,
                forall|j: int| 0 <= j < y ==> #[trigger] img@.rows[j] == chunk(pixels@, 3 * width, j),
            decreases height - y,
        {
            proof {
                assert(row_len * (y + 1) <= width * height * 3) by (nonlinear_arith)
                    requires
                        row_len == 3 * width,
                        y < height,
                ;
                assert(row_len * (y + 1) == row_len * y + row_len) by (nonlinear_arith);
            }
            let start = row_len * y;
            let row = vstd::slice::slice_subrange(pixels, start, start + row_len);
            let ghost before = img@;
            img.write_row(RowLayout::Rgb, y, row, width);
            proof {
                assert(3 * width * y == start);
                assert(3 * width * (y + 1) == start + row_len);
                assert forall|j: int| 0 <= j < y + 1 implies #[trigger] img@.rows[j] == chunk(pixels@, 3 * width, j) by {
                    if j < y {
                        assert(img@.rows[j] == before.rows[j]);
                    }
                }
            }
            y += 1;
        }
        assert(img@.rows =~= raster_from_bytes(width as nat, height as nat, pixels@).rows);
        self.pixels = img;
    }

    /// Corrects the orientation that the EXIF data asked for, if any, and
    /// forgets it: afterwards the pixels are upright.
    pub fn apply_exif_orientation(&mut self)
        requires
            color_wf(old(self)@),
            old(self)@.raster.sized,
        ensures
            color_wf(final(self)@),
            final(self)@.exif_rot == None::<i32>,
            match old(self)@.exif_rot {
                Some(code) => {
                    &&& final(self)@.raster.sized
                    &&& (final(self)@.raster.width, final(self)@.raster.height) == oriented_size(
                        code as int,
                        old(self)@.raster.width,
                        old(self)@.raster.height,
                    )
                    &&& forall|x: int, y: int, c: int|
                        0 <= x < final(self)@.raster.width && 0 <= y < final(self)@.raster.height && 0 <= c < 3
                            ==> #[trigger] pixel_of(final(self)@.raster, x, y, c) == pixel_of(
                            old(self)@.raster,
                            orientation_source(code as int, old(self)@.raster.width as int, old(self)@.raster.height as int, x, y).0,
                            orientation_source(code as int, old(self)@.raster.width as int, old(self)@.raster.height as int, x, y).1,
                            c,
                        )
                },
                None => final(self)@.raster == old(self)@.raster,
            },
    {
        if let Some(code) = self.exif_rot {
            self.pixels.apply_orientation(code);
        }
        self.exif_rot = None;
    }
}

impl ImageWriter for ColorImage {
    open spec fn sink_state(&self) -> SinkState {
        raster_sink_state(self@.raster)
    }

    open spec fn sink_inv(&self) -> bool {
        color_wf(self@)
    }

    /// Allocates `height` rows of black pixels.
    fn init_size(&mut self, width: usize, height: usize)
        ensures
            final(self)@.exif_rot == old(self)@.exif_rot,
            forall|y: int, x: int, c: int|
                0 <= y < height && 0 <= x < width && 0 <= c < 3 ==> #[trigger] pixel_of(final(self)@.raster, x, y, c) == 0,
    {
        self.pixels.init_size(width, height);
    }

    fn is_sized(&self) -> (r: bool) {
        self.pixels.is_sized()
    }

    fn accepts_row(&self, row_idx: usize, row_width: usize) -> (r: bool) {
        self.pixels.accepts_row(row_idx, row_width)
    }

    fn write_row_gray(&mut self, row_idx: usize, row: &[u8], row_width: usize)
        ensures
            final(self)@.exif_rot == old(self)@.exif_rot,
            forall|y: int| 0 <= y < final(self)@.raster.height && y != row_idx ==> #[trigger] final(self)@.raster.rows[y] == old(self)@.raster.rows[y],
            forall|x: int, c: int|
                0 <= x < row_width && 0 <= c < 3 ==> #[trigger] pixel_of(final(self)@.raster, x, row_idx as int, c)
                    == source_sample(RowLayout::Gray, row@, x, c),
    {
        self.pixels.write_row(RowLayout::Gray, row_idx, row, row_width);
    }

    fn write_row_grayx(&mut self, row_idx: usize, row: &[u8], row_width: usize)
        ensures
            final(self)@.exif_rot == old(self)@.exif_rot,
            forall|y: int| 0 <= y < final(self)@.raster.height && y != row_idx ==> #[trigger] final(self)@.raster.rows[y] == old(self)@.raster.rows[y],
            forall|x: int, c: int|
                0 <= x < row_width && 0 <= c < 3 ==> #[trigger] pixel_of(final(self)@.raster, x, row_idx as int, c)
                    == source_sample(RowLayout::GrayAlpha, row@, x, c),
    {
        self.pixels.write_row(RowLayout::GrayAlpha, row_idx, row, row_width);
    }

    fn write_row_rgb(&mut self, row_idx: usize, row: &[u8], row_width: usize)
        ensures
            final(self)@.exif_rot == old(self)@.exif_rot,
            forall|y: int| 0 <= y < final(self)@.raster.height && y != row_idx ==> #[trigger] final(self)@.raster.rows[y] == old(self)@.raster.rows[y],
            final(self)@.raster.rows[row_idx as int] == row@,
    {
        self.pixels.write_row(RowLayout::Rgb, row_idx, row, row_width);
    }

    fn write_row_rgbx(&mut self, row_idx: usize, row: &[u8], row_width: usize)
        ensures
            final(self)@.exif_rot == old(self)@.exif_rot,
            forall|y: int| 0 <= y < final(self)@.raster.height && y != row_idx ==> #[trigger] final(self)@.raster.rows[y] == old(self)@.raster.rows[y],
            forall|x: int, c: int|
                0 <= x < row_width && 0 <= c < 3 ==> #[trigger] pixel_of(final(self)@.raster, x, row_idx as int, c)
                    == source_sample(RowLayout::Rgba, row@, x, c),
    {
        self.pixels.write_row(RowLayout::Rgba, row_idx, row, row_width);
    }

    /// Keeps the code as the orientation to correct when it lies in `1..=8`.
    fn parse_exif(&mut self, exif: &[u8]) -> (r: i32)
        ensures
            final(self)@.raster == old(self)@.raster,
            final(self)@.exif_rot == (if 1 <= r <= 8 { Some(r) } else { None::<i32> }),
    {
        let code = exif_orientation_code(exif);
        if 1 <= code && code <= 8 {
            self.exif_rot = Some(code);
        } else {
            self.exif_rot = None;
        }
        code
    }
}

} // verus!
