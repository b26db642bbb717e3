//! The raw raster buffer: rows of RGB pixels, three bytes each.

use vstd::prelude::*;
use crate::exif::exif_orientation_code;
use crate::sink::{
    after_row, layout_bpp, px, row_accepted, source_sample, ImageWriter, RowLayout, SinkState,
};

verus! {

/// A decoded image as rows of RGB pixels.
pub struct RasterImage {
    sized: bool,
    width: usize,
    height: usize,
    data: Vec<Vec<u8>>,
    rows_written: usize,
}

/// The contents of a [`RasterImage`].
pub struct RasterView {
    /// The size has been set.
    pub sized: bool,
    pub width: nat,
    pub height: nat,
    /// Row `y` holds red, green and blue of each pixel in turn.
    pub rows: Seq<Seq<u8>>,
    /// Rows `0..rows_written` have been delivered.
    pub rows_written: nat,
}

/// A raster whose rows all have the width of the image.
pub open spec fn raster_wf(v: RasterView) -> bool {
    if v.sized {
        &&& 1 <= v.width
        &&& 1 <= v.height
        &&& v.width * v.height * 3 <= usize::MAX
        &&& v.rows.len() == v.height
        &&& forall|y: int| 0 <= y < v.height ==> (#[trigger] v.rows[y]).len() == 3 * v.width
        &&& v.rows_written <= v.height
    } else {
        &&& v.width == 0
        &&& v.height == 0
        &&& v.rows.len() == 0
        &&& v.rows_written == 0
    }
}

/// Channel `c` of the pixel at column `x` of row `y`.
pub open spec fn pixel_of(v: RasterView, x: int, y: int, c: int) -> u8 {
    px(v.rows[y], x, c)
}

/// What a sink over raster `v` has received.
pub open spec fn raster_sink_state(v: RasterView) -> SinkState {
    SinkState { sized: v.sized, width: v.width, height: v.height, rows_done: v.rows_written }
}

impl View for RasterImage {
    type V = RasterView;

    closed spec fn view(&self) -> RasterView {
        RasterView {
            sized: self.sized,
            width: self.width as nat,
            height: self.height as nat,
            rows: self.data@.map_values(|r: Vec<u8>| r@),
            rows_written: self.rows_written as nat,
        }
    }
}

proof fn lemma_row_bound(w: nat, h: nat)
    requires
        1 <= h,
        w * h * 3 <= usize::MAX,
    ensures
        3 * w <= usize::MAX,
        w * 3 <= w * h * 3,
{
    assert(w * 3 <= w * h * 3) by (nonlinear_arith)
        requires
            1 <= h,
    ;
}

/// Converts a delivered row of `width` pixels in layout `l` to RGB.
fn expand_row(l: RowLayout, row: &[u8], width: usize) -> (out: Vec<u8>)
    requires
        row@.len() == layout_bpp(l) * width,
        3 * width <= usize::MAX,
    ensures
        out@.len() == 3 * width,
        forall|x: int, c: int|
            0 <= x < width && 0 <= c < 3 ==> #[trigger] px(out@, x, c) == source_sample(l, row@, x, c),
        l == RowLayout::Rgb ==> out@ == row@,
{
    let n: usize = row.len();
    if l == RowLayout::Rgb {
        let mut out: Vec<u8> = Vec::new();
        let mut k: usize = 0;
        while k < n
            invariant
                k <= n,
                n == row@.len(),
                out@ == row@.subrange(0, k as int),
            decreases n - k,
        {
            out.push(row[k]);
            k += 1;
            assert(out@ =~= row@.subrange(0, k as int));
        }
        assert(out@ =~= row@);
        return out;
    }
    let mut out: Vec<u8> = Vec::new();
    let mut x: usize = 0;
    while x < width
        invariant
            x <= width,
            n == row@.len() == layout_bpp(l) * width,
            3 * width <= usize::MAX,
            out@.len() == 3 * x,
            forall|i: int, c: int|
                0 <= i < x && 0 <= c < 3 ==> #[trigger] px(out@, i, c) == source_sample(l, row@, i, c),
        decreases width - x,
    {
        let mut c: usize = 0;
        while c < 3
            invariant
                x < width,
                c <= 3,
                n == row@.len() == layout_bpp(l) * width,
                3 * width <= usize::MAX,
                out@.len() == 3 * x + c,
                forall|i: int, k: int|
                    0 <= i < x && 0 <= k < 3 ==> #[trigger] px(out@, i, k) == source_sample(l, row@, i, k),
                forall|k: int| 0 <= k < c ==> #[trigger] out@[3 * x + k] == source_sample(l, row@, x as int, k),
            decreases 3 - c,
        {
            let b = match l {
                RowLayout::Gray => row[x],
                RowLayout::GrayAlpha => row[2 * x],
                RowLayout::Rgb => row[3 * x + c],
                RowLayout::Rgba => row[4 * x + c],
            };
            let ghost before = out@;
            out.push(b);
            assert forall|i: int, k: int| 0 <= i < x && 0 <= k < 3 implies #[trigger] px(out@, i, k) == source_sample(l, row@, i, k) by {
                assert(px(before, i, k) == source_sample(l, row@, i, k));
            }
            c += 1;
        }
        assert forall|k: int| 0 <= k < 3 implies #[trigger] px(out@, x as int, k) == source_sample(l, row@, x as int, k) by {
            assert(out@[3 * x + k] == source_sample(l, row@, x as int, k));
        }
        x += 1;
    }
    out
}

/// The size of an image of `w` by `h` pixels once orientation `code` is
/// corrected: codes 5 to 8 swap width and height.
pub open spec fn oriented_size(code: int, w: nat, h: nat) -> (nat, nat) {
    if 5 <= code <= 8 {
        (h, w)
    } else {
        (w, h)
    }
}

/// The pixel of a `w` by `h` source image that lands at `(x, y)` once
/// orientation `code` is corrected: 2 mirrors left to right, 3 turns half
/// way, 4 mirrors top to bottom, 5 transposes, 6 turns a quarter clockwise,
/// 7 transposes across the other diagonal, 8 turns a quarter counterclockwise.
pub open spec fn orientation_source(code: int, w: int, h: int, x: int, y: int) -> (int, int) {
    if code == 2 {
        (w - 1 - x, y)
    } else if code == 3 {
        (w - 1 - x, h - 1 - y)
    } else if code == 4 {
        (x, h - 1 - y)
    } else if code == 5 {
        (y, x)
    } else if code == 6 {
        (y, h - 1 - x)
    } else if code == 7 {
        (w - 1 - y, h - 1 - x)
    } else if code == 8 {
        (w - 1 - y, x)
    } else {
        (x, y)
    }
}

/// The pixels row after row, each pixel as red, green and blue.
pub open spec fn interleaved(v: RasterView) -> Seq<u8> {
    v.rows.flatten()
}

/// Channel `c` of the first `w` pixels of `row`.
pub open spec fn channel_row(row: Seq<u8>, w: nat, c: int) -> Seq<u8> {
    Seq::new(w, |x: int| px(row, x, c))
}

/// Channel `c` of every pixel, row after row.
pub open spec fn plane(v: RasterView, c: int) -> Seq<u8> {
    v.rows.map_values(|r: Seq<u8>| channel_row(r, v.width, c)).flatten()
}

/// The red plane, then the green plane, then the blue plane.
pub open spec fn planar(v: RasterView) -> Seq<u8> {
    plane(v, 0) + plane(v, 1) + plane(v, 2)
}

proof fn lemma_flatten_uniform_len(rows: Seq<Seq<u8>>, l: nat)
    requires
        forall|i: int| 0 <= i < rows.len() ==> (#[trigger] rows[i]).len() == l,
    ensures
        rows.flatten().len() == rows.len() * l,
    decreases rows.len(),
{
    if rows.len() > 0 {
        let rest = rows.drop_first();
        assert forall|i: int| 0 <= i < rest.len() implies (#[trigger] rest[i]).len() == l by {
            assert(rest[i] == rows[i + 1]);
        }
        lemma_flatten_uniform_len(rest, l);
        assert(rows[0].len() == l);
        assert(rows.len() * l == l + (rows.len() - 1) * l) by (nonlinear_arith);
    }
}

/// Appends the whole of `row`.
fn push_row(out: &mut Vec<u8>, row: &Vec<u8>)
    requires
        old(out)@.len() + row@.len() <= usize::MAX,
    ensures
        final(out)@ == old(out)@ + row@,
{
    let mut k: usize = 0;
    while k < row.len()
        invariant
            k <= row@.len(),
            out@ == old(out)@ + row@.subrange(0, k as int),
        decreases row@.len() - k,
    {
        out.push(row[k]);
        k += 1;
        assert(out@ =~= old(out)@ + row@.subrange(0, k as int));
    }
    assert(row@.subrange(0, row@.len() as int) =~= row@);
}

/// Appends channel `c` of the first `w` pixels of `row`.
fn push_channel(out: &mut Vec<u8>, row: &Vec<u8>, w: usize, c: usize)
    requires
        c < 3,
        row@.len() == 3 * w,
    ensures
        final(out)@ == old(out)@ + channel_row(row@, w as nat, c as int),
{
    let n: usize = row.len();
    let mut x: usize = 0;
    while x < w
        invariant
            c < 3,
            x <= w,
            n == row@.len() == 3 * w,
            out@ == old(out)@ + Seq::new(x as nat, |i: int| px(row@, i, c as int)),
        decreases w - x,
    {
        out.push(row[3 * x + c]);
        x += 1;
        assert(out@ =~= old(out)@ + Seq::new(x as nat, |i: int| px(row@, i, c as int)));
    }
    assert(Seq::new(w as nat, |i: int| px(row@, i, c as int)) =~= channel_row(row@, w as nat, c as int));
}

/// Copies `src` over all of `buf`.
fn copy_into(buf: &mut [u8], src: &Vec<u8>)
    requires
        old(buf)@.len() == src@.len(),
    ensures
        final(buf)@ == src@,
{
    let mut i: usize = 0;
    while i < src.len()
        invariant
            i <= src@.len(),
            buf@.len() == src@.len(),
            forall|j: int| 0 <= j < i ==> buf@[j] == src@[j],
        decreases src@.len() - i,
    {
        buf[i] = src[i];
        i += 1;
    }
    assert(buf@ =~= src@);
}

/// Where the pixels of a new image come from.
#[derive(Clone, Copy)]
enum Mapping {
    /// The corrected image for an orientation code.
    Orient(i32),
    /// The rectangle whose top left corner is at the given column and row.
    Crop(usize, usize),
}

spec fn mapping_source(m: Mapping, w: int, h: int, x: int, y: int) -> (int, int) {
    match m {
        Mapping::Orient(code) => orientation_source(code as int, w, h, x, y),
        Mapping::Crop(x0, y0) => (x0 + x, y0 + y),
    }
}

/// `m` maps every pixel of an `nw` by `nh` image into a `w` by `h` one.
spec fn mapping_fits(m: Mapping, w: nat, h: nat, nw: nat, nh: nat) -> bool {
    match m {
        Mapping::Orient(code) => 1 <= code <= 8 && (nw, nh) == oriented_size(code as int, w, h),
        Mapping::Crop(x0, y0) => x0 + nw <= w && y0 + nh <= h,
    }
}

fn source_of(m: Mapping, w: usize, h: usize, x: usize, y: usize, nw: Ghost<nat>, nh: Ghost<nat>) -> (r: (usize, usize))
    requires
        mapping_fits(m, w as nat, h as nat, nw@, nh@),
        x < nw@,
        y < nh@,
    ensures
        (r.0 as int, r.1 as int) == mapping_source(m, w as int, h as int, x as int, y as int),
        r.0 < w,
        r.1 < h,
{
    match m {
        Mapping::Orient(code) => if code == 2 {
            (w - 1 - x, y)
        } else if code == 3 {
            (w - 1 - x, h - 1 - y)
        } else if code == 4 {
            (x, h - 1 - y)
        } else if code == 5 {
            (y, x)
        } else if code == 6 {
            (y, h - 1 - x)
        } else if code == 7 {
            (w - 1 - y, h - 1 - x)
        } else if code == 8 {
            (w - 1 - y, x)
        } else {
            (x, y)
        },
        Mapping::Crop(x0, y0) => (x0 + x, y0 + y),
    }
}

impl RasterImage {
    /// Builds the rows of an `nw` by `nh` image whose pixels come from this
    /// one through `m`.
    fn remap(&self, m: Mapping, nw: usize, nh: usize) -> (r: Vec<Vec<u8>>)
        requires
            raster_wf(self@),
            self@.sized,
            mapping_fits(m, self@.width, self@.height, nw as nat, nh as nat),
            3 * nw <= usize::MAX,
        ensures
            r@.len() == nh,
            forall|y: int| 0 <= y < nh ==> (#[trigger] r@[y])@.len() == 3 * nw,
            forall|x: int, y: int, c: int|
                0 <= x < nw && 0 <= y < nh && 0 <= c < 3 ==> #[trigger] px(r@[y]@, x, c) == pixel_of(
                    self@,
                    mapping_source(m, self@.width as int, self@.height as int, x, y).0,
                    mapping_source(m, self@.width as int, self@.height as int, x, y).1,
                    c,
                ),
    {
        let w = self.width;
        let h = self.height;
        proof {
            lemma_row_bound(w as nat, h as nat);
        }
        let mut out: Vec<Vec<u8>> = Vec::new();
        let mut y: usize = 0;
        while y < nh
            invariant
                raster_wf(self@),
                self@.sized,
                w == self@.width,
                h == self@.height,
                3 * w <= usize::MAX,
                3 * nw <= usize::MAX,
                mapping_fits(m, w as nat, h as nat, nw as nat, nh as nat),
                y <= nh,
                out@.len() == y,
                forall|j: int| 0 <= j < y ==> (#[trigger] out@[j])@.len() == 3 * nw,
                forall|x: int, j: int, c: int|
                    0 <= x < nw && 0 <= j < y && 0 <= c < 3 ==> #[trigger] px(out@[j]@, x, c) == pixel_of(
                        self@,
                        mapping_source(m, w as int, h as int, x, j).0,
                        mapping_source(m, w as int, h as int, x, j).1,
                        c,
                    ),
            decreases nh - y,
        {
            let mut row: Vec<u8> = Vec::new();
            let mut x: usize = 0;
            while x < nw
                invariant
                    raster_wf(self@),
                    self@.sized,
                    w == self@.width,
                    h == self@.height,
                    3 * w <= usize::MAX,
                    3 * nw <= usize::MAX,
                    mapping_fits(m, w as nat, h as nat, nw as nat, nh as nat),
                    y < nh,
                    x <= nw,
                    row@.len() == 3 * x,
                    forall|i: int, c: int|
                        0 <= i < x && 0 <= c < 3 ==> #[trigger] px(row@, i, c) == pixel_of(
                            self@,
                            mapping_source(m, w as int, h as int, i, y as int).0,
                            mapping_source(m, w as int, h as int, i, y as int).1,
                            c,
                        ),
                decreases nw - x,
            {
                let (sx, sy) = source_of(m, w, h, x, y, Ghost(nw as nat), Ghost(nh as nat));
                let ghost before = row@;
                let src = &self.data[sy];
                assert(src@ == self@.rows[sy as int]);
                row.push(src[3 * sx]);
                row.push(src[3 * sx + 1]);
                row.push(src[3 * sx + 2]);
                assert forall|i: int, c: int| 0 <= i <= x && 0 <= c < 3 implies #[trigger] px(row@, i, c) == pixel_of(
                    self@,
                    mapping_source(m, w as int, h as int, i, y as int).0,
                    mapping_source(m, w as int, h as int, i, y as int).1,
                    c,
                ) by {
                    if i < x {
                        assert(px(before, i, c) == px(row@, i, c));
                    }
                }
                x += 1;
            }
            out.push(row);
            y += 1;
        }
        out
    }

    /// Corrects EXIF orientation `code`: afterwards the pixel at `(x, y)` is
    /// the one that stood at `orientation_source(code, ..., x, y)`.
    pub fn apply_orientation(&mut self, code: i32)
        requires
            raster_wf(old(self)@),
            old(self)@.sized,
            1 <= code <= 8,
        ensures
            raster_wf(final(self)@),
            final(self)@.sized,
            (final(self)@.width, final(self)@.height) == oriented_size(code as int, old(self)@.width, old(self)@.height),
            final(self)@.rows_written == final(self)@.height,
            forall|x: int, y: int, c: int|
                0 <= x < final(self)@.width && 0 <= y < final(self)@.height && 0 <= c < 3
                    ==> #[trigger] pixel_of(final(self)@, x, y, c) == pixel_of(
                    old(self)@,
                    orientation_source(code as int, old(self)@.width as int, old(self)@.height as int, x, y).0,
                    orientation_source(code as int, old(self)@.width as int, old(self)@.height as int, x, y).1,
                    c,
                ),
    {
        let w = self.width;
        let h = self.height;
        let (nw, nh) = if code >= 5 {
            (h, w)
        } else {
            (w, h)
        };
        proof {
            lemma_row_bound(w as nat, h as nat);
            assert(h * w * 3 == w * h * 3) by (nonlinear_arith);
            lemma_row_bound(h as nat, w as nat);
        }
        let data = self.remap(Mapping::Orient(code), nw, nh);
        let ghost old_view = self@;
        self.width = nw;
        self.height = nh;
        self.data = data;
        self.rows_written = nh;
        proof {
            assert(nw * nh * 3 == w * h * 3) by (nonlinear_arith)
                requires
                    (nw == w && nh == h) || (nw == h && nh == w),
            ;
            assert forall|y: int| 0 <= y < nh implies (#[trigger] self@.rows[y]).len() == 3 * nw by {
                assert(self@.rows[y] == data@[y]@);
            }
            assert forall|x: int, y: int, c: int|
                0 <= x < nw && 0 <= y < nh && 0 <= c < 3 implies #[trigger] pixel_of(self@, x, y, c) == pixel_of(
                    old_view,
                    orientation_source(code as int, w as int, h as int, x, y).0,
                    orientation_source(code as int, w as int, h as int, x, y).1,
                    c,
                ) by {
                assert(self@.rows[y] == data@[y]@);
                assert(px(data@[y]@, x, c) == pixel_of(old_view, mapping_source(Mapping::Orient(code), w as int, h as int, x, y).0, mapping_source(Mapping::Orient(code), w as int, h as int, x, y).1, c));
            }
        }
    }

    /// Keeps the `new_width` by `new_height` rectangle whose top left corner
    /// is at column `x`, row `y`.
    pub fn crop(&mut self, x: usize, y: usize, new_width: usize, new_height: usize)
        requires
            raster_wf(old(self)@),
            old(self)@.sized,
            1 <= new_width,
            1 <= new_height,
            x + new_width <= old(self)@.width,
            y + new_height <= old(self)@.height,
        ensures
            raster_wf(final(self)@),
            final(self)@.sized,
            final(self)@.width == new_width,
            final(self)@.height == new_height,
            final(self)@.rows_written == new_height,
            forall|i: int, j: int, c: int|
                0 <= i < new_width && 0 <= j < new_height && 0 <= c < 3 ==> #[trigger] pixel_of(final(self)@, i, j, c)
                    == pixel_of(old(self)@, x + i, y + j, c),
    {
        let ghost w = self@.width;
        let ghost h = self@.height;
        proof {
            lemma_row_bound(w, h);
            assert(new_width * new_height * 3 <= w * h * 3) by (nonlinear_arith)
                requires
                    new_width <= w,
                    new_height <= h,
            ;
        }
        let data = self.remap(Mapping::Crop(x, y), new_width, new_height);
        let ghost old_view = self@;
        self.width = new_width;
        self.height = new_height;
        self.data = data;
        self.rows_written = new_height;
        proof {
            assert forall|j: int| 0 <= j < new_height implies (#[trigger] self@.rows[j]).len() == 3 * new_width by {
                assert(self@.rows[j] == data@[j]@);
            }
            assert forall|i: int, j: int, c: int|
                0 <= i < new_width && 0 <= j < new_height && 0 <= c < 3 implies #[trigger] pixel_of(self@, i, j, c)
                    == pixel_of(old_view, x + i, y + j, c) by {
                assert(self@.rows[j] == data@[j]@);
                assert(px(data@[j]@, i, c) == pixel_of(old_view, mapping_source(Mapping::Crop(x, y), w as int, h as int, i, j).0, mapping_source(Mapping::Crop(x, y), w as int, h as int, i, j).1, c));
            }
        }
    }

    /// Copies the pixels into `buf` interleaved: row after row, each pixel as
    /// red, green and blue.
    pub fn dump_pixels(&self, buf: &mut [u8])
        requires
            raster_wf(self@),
            self@.sized,
            old(buf)@.len() == self@.width * self@.height * 3,
        ensures
            final(buf)@ == interleaved(self@),
    {
        let mut out: Vec<u8> = Vec::new();
        let mut y: usize = 0;
        proof {
            lemma_row_bound(self@.width, self@.height);
        }
        while y < self.height
            invariant
                raster_wf(self@),
                self@.sized,
                y <= self@.height,
                out@ == self@.rows.subrange(0, y as int).flatten(),
                out@.len() == y * (3 * self@.width),
            decreases self@.height - y,
        {
            let ghost prefix = self@.rows.subrange(0, y as int);
            assert(self.data@[y as int]@ == self@.rows[y as int]);
            proof {
                assert((y + 1) * (3 * self@.width) <= self@.width * self@.height * 3) by (nonlinear_arith)
                    requires
                        y < self@.height,
                ;
                assert((y + 1) * (3 * self@.width) == y * (3 * self@.width) + 3 * self@.width) by (nonlinear_arith);
            }
            push_row(&mut out, &self.data[y]);
            proof {
                assert(self@.rows.subrange(0, y + 1) =~= prefix.push(self@.rows[y as int]));
                prefix.lemma_flatten_push(self@.rows[y as int]);
            }
            y += 1;
        }
        proof {
            assert(self@.rows.subrange(0, self@.height as int) =~= self@.rows);
            assert(self@.height * (3 * self@.width) == self@.width * self@.height * 3) by (nonlinear_arith);
        }
        copy_into(buf, &out);
    }

    /// Copies the pixels into `buf` as three planes: all red samples row
    /// after row, then all green, then all blue.
    pub fn dump_planes(&self, buf: &mut [u8])
        requires
            raster_wf(self@),
            self@.sized,
            old(buf)@.len() == self@.width * self@.height * 3,
        ensures
            final(buf)@ == planar(self@),
    {
        let w = self.width;
        let h = self.height;
        proof {
            lemma_row_bound(w as nat, h as nat);
        }
        let mut out: Vec<u8> = Vec::new();
        let mut c: usize = 0;
        while c < 3
            invariant
                raster_wf(self@),
                self@.sized,
                w == self@.width,
                h == self@.height,
                3 * w <= usize::MAX,
                w * h * 3 <= usize::MAX,
                c <= 3,
                c == 0 ==> out@ == Seq::<u8>::empty(),
                c == 1 ==> out@ == plane(self@, 0),
                c == 2 ==> out@ == plane(self@, 0) + plane(self@, 1),
                c == 3 ==> out@ == planar(self@),
                out@.len() == c * (w * h),
            decreases 3 - c,
        {
            let ghost before = out@;
            let ghost mapped = self@.rows.map_values(|r: Seq<u8>| channel_row(r, w as nat, c as int));
            let mut y: usize = 0;
            while y < h
                invariant
                    raster_wf(self@),
                    self@.sized,
                    w == self@.width,
                    h == self@.height,
                    3 * w <= usize::MAX,
                    w * h * 3 <= usize::MAX,
                    c < 3,
                    y <= h,
                    mapped.len() == h,
                    forall|j: int| 0 <= j < h ==> #[trigger] mapped[j] == channel_row(self@.rows[j], w as nat, c as int),
                    out@ == before + mapped.subrange(0, y as int).flatten(),
                    out@.len() == c * (w * h) + y * w,
                decreases h - y,
            {
                let ghost prefix = mapped.subrange(0, y as int);
                assert(self.data@[y as int]@ == self@.rows[y as int]);
                proof {
                    assert(c * (w * h) + (y + 1) * w <= w * h * 3) by (nonlinear_arith)
                        requires
                            c < 3,
                            y < h,
                    ;
                    assert((y + 1) * w == y * w + w) by (nonlinear_arith);
                }
                push_channel(&mut out, &self.data[y], w, c);
                proof {
                    assert(mapped.subrange(0, y + 1) =~= prefix.push(mapped[y as int]));
                    prefix.lemma_flatten_push(mapped[y as int]);
                    assert(mapped[y as int] == channel_row(self@.rows[y as int], w as nat, c as int));
                    assert(out@ =~= before + mapped.subrange(0, y + 1).flatten());
                }
                y += 1;
            }
            proof {
                assert(mapped.subrange(0, h as int) =~= mapped);
                assert(mapped =~= self@.rows.map_values(|r: Seq<u8>| channel_row(r, self@.width, c as int)));
                assert((c + 1) * (w * h) == c * (w * h) + h * w) by (nonlinear_arith);
            }
            c += 1;
        }
        assert(3 * (w * h) == w * h * 3) by (nonlinear_arith);
        copy_into(buf, &out);
    }

    /// An image whose size has not been set yet.
    pub fn new() -> (r: Self)
        ensures
            r@.sized == false,
            raster_wf(r@),
    {
        let r = RasterImage { sized: false, width: 0, height: 0, data: Vec::new(), rows_written: 0 };
        assert(r@.rows =~= Seq::<Seq<u8>>::empty());
        r
    }

    pub fn width(&self) -> (r: usize)
        ensures
            r == self@.width,
    {
        self.width
    }

    pub fn height(&self) -> (r: usize)
        ensures
            r == self@.height,
    {
        self.height
    }

    /// Whether every row has been delivered.
    pub fn is_complete(&self) -> (r: bool)
        ensures
            r == (self@.sized && self@.rows_written == self@.height),
    {
        self.sized && self.rows_written == self.height
    }

    /// Stores row `row_idx`, delivered in layout `l`, as RGB.
    pub fn write_row(&mut self, l: RowLayout, row_idx: usize, row: &[u8], row_width: usize)
        requires
            raster_wf(old(self)@),
            row_accepted(raster_sink_state(old(self)@), row_idx as int, row_width as int),
            row@.len() == layout_bpp(l) * row_width,
        ensures
            raster_wf(final(self)@),
            raster_sink_state(final(self)@) == after_row(raster_sink_state(old(self)@)),
            final(self)@.sized,
            forall|y: int| 0 <= y < final(self)@.height && y != row_idx ==> #[trigger] final(self)@.rows[y] == old(self)@.rows[y],
            forall|x: int, c: int|
                0 <= x < row_width && 0 <= c < 3 ==> #[trigger] pixel_of(final(self)@, x, row_idx as int, c)
                    == source_sample(l, row@, x, c),
            l == RowLayout::Rgb ==> final(self)@.rows[row_idx as int] == row@,
    {
        proof {
            lemma_row_bound(self@.width, self@.height);
        }
        let out = expand_row(l, row, row_width);
        let ghost old_data = self.data@;
        self.data[row_idx] = out;
        self.rows_written = self.rows_written + 1;
        proof {
            assert(self.data@ == old_data.update(row_idx as int, out));
            assert(self@.rows =~= old(self)@.rows.update(row_idx as int, out@));
        }
    }
}

impl ImageWriter for RasterImage {
    open spec fn sink_state(&self) -> SinkState {
        raster_sink_state(self@)
    }

    open spec fn sink_inv(&self) -> bool {
        raster_wf(self@)
    }

    /// Allocates `height` rows of black pixels.
    fn init_size(&mut self, width: usize, height: usize)
        ensures
            forall|y: int, x: int, c: int|
                0 <= y < height && 0 <= x < width && 0 <= c < 3 ==> #[trigger] pixel_of(final(self)@, x, y, c) == 0,
    {
        proof {
            lemma_row_bound(width as nat, height as nat);
        }
        let mut data: Vec<Vec<u8>> = Vec::new();
        let mut y: usize = 0;
        while y < height
            invariant
                y <= height,
                3 * width <= usize::MAX,
                data@.len() == y,
                forall|j: int| 0 <= j < y ==> (#[trigger] data@[j])@ == Seq::new(3 * width as nat, |k: int| 0u8),
            decreases height - y,
        {
            let mut row: Vec<u8> = Vec::new();
            let mut k: usize = 0;
            while k < 3 * width
                invariant
                    k <= 3 * width,
                    3 * width <= usize::MAX,
                    row@ == Seq::new(k as nat, |i: int| 0u8),
                decreases 3 * width - k,
            {
                row.push(0);
                k += 1;
                assert(row@ =~= Seq::new(k as nat, |i: int| 0u8));
            }
            data.push(row);
            y += 1;
        }
        self.sized = true;
        self.width = width;
        self.height = height;
        self.data = data;
        self.rows_written = 0;
        assert forall|y: int, x: int, c: int| 0 <= y < height && 0 <= x < width && 0 <= c < 3 implies #[trigger] pixel_of(self@, x, y, c) == 0 by {
            assert(self@.rows[y] == self.data@[y]@);
        }
    }

    fn is_sized(&self) -> (r: bool) {
        self.sized
    }

    fn accepts_row(&self, row_idx: usize, row_width: usize) -> (r: bool) {
        self.sized && row_idx == self.rows_written && row_idx < self.height && row_width == self.width
    }

    fn write_row_gray(&mut self, row_idx: usize, row: &[u8], row_width: usize)
        ensures
            forall|y: int| 0 <= y < final(self)@.height && y != row_idx ==> #[trigger] final(self)@.rows[y] == old(self)@.rows[y],
            forall|x: int, c: int|
                0 <= x < row_width && 0 <= c < 3 ==> #[trigger] pixel_of(final(self)@, x, row_idx as int, c)
                    == source_sample(RowLayout::Gray, row@, x, c),
    {
        self.write_row(RowLayout::Gray, row_idx, row, row_width);
    }

    fn write_row_grayx(&mut self, row_idx: usize, row: &[u8], row_width: usize)
        ensures
            forall|y: int| 0 <= y < final(self)@.height && y != row_idx ==> #[trigger] final(self)@.rows[y] == old(self)@.rows[y],
            forall|x: int, c: int|
                0 <= x < row_width && 0 <= c < 3 ==> #[trigger] pixel_of(final(self)@, x, row_idx as int, c)
                    == source_sample(RowLayout::GrayAlpha, row@, x, c),
    {
        self.write_row(RowLayout::GrayAlpha, row_idx, row, row_width);
    }

    fn write_row_rgb(&mut self, row_idx: usize, row: &[u8], row_width: usize)
        ensures
            forall|y: int| 0 <= y < final(self)@.height && y != row_idx ==> #[trigger] final(self)@.rows[y] == old(self)@.rows[y],
            forall|x: int, c: int|
                0 <= x < row_width && 0 <= c < 3 ==> #[trigger] pixel_of(final(self)@, x, row_idx as int, c)
                    == source_sample(RowLayout::Rgb, row@, x, c),
    {
        self.write_row(RowLayout::Rgb, row_idx, row, row_width);
    }

    fn write_row_rgbx(&mut self, row_idx: usize, row: &[u8], row_width: usize)
        ensures
            forall|y: int| 0 <= y < final(self)@.height && y != row_idx ==> #[trigger] final(self)@.rows[y] == old(self)@.rows[y],
            forall|x: int, c: int|
                0 <= x < row_width && 0 <= c < 3 ==> #[trigger] pixel_of(final(self)@, x, row_idx as int, c)
                    == source_sample(RowLayout::Rgba, row@, x, c),
    {
        self.write_row(RowLayout::Rgba, row_idx, row, row_width);
    }

    /// A raw raster keeps no orientation: the code is only reported.
    fn parse_exif(&mut self, exif: &[u8]) -> (r: i32)
        ensures
            final(self)@ == old(self)@,
    {
        exif_orientation_code(exif)
    }
}

} // verus!
