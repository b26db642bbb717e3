//! The pixel sink protocol: how a decoder hands an image's size, rows and
//! EXIF payload to the buffer that assembles them.

use vstd::prelude::*;

verus! {

/// The samples of each pixel in a row that a decoder delivers.
#[derive(Clone, Copy, PartialEq, Eq, Debug, Structural)]
pub enum RowLayout {
    Gray,
    GrayAlpha,
    Rgb,
    Rgba,
}

/// Bytes per pixel in a delivered row.
pub open spec fn layout_bpp(l: RowLayout) -> nat {
    match l {
        RowLayout::Gray => 1,
        RowLayout::GrayAlpha => 2,
        RowLayout::Rgb => 3,
        RowLayout::Rgba => 4,
    }
}

/// Channel `c` (red, green, blue) of pixel `x` of a delivered row: luma is
/// replicated into the three channels and alpha is dropped.
pub open spec fn source_sample(l: RowLayout, row: Seq<u8>, x: int, c: int) -> u8 {
    match l {
        RowLayout::Gray => row[x],
        RowLayout::GrayAlpha => row[2 * x],
        RowLayout::Rgb => row[3 * x + c],
        RowLayout::Rgba => row[4 * x + c],
    }
}

/// Channel `c` of pixel `x` of a row stored as RGB.
pub open spec fn px(row: Seq<u8>, x: int, c: int) -> u8 {
    row[3 * x + c]
}

/// What a sink has received so far.
pub struct SinkState {
    /// `init_size` has been called.
    pub sized: bool,
    pub width: nat,
    pub height: nat,
    /// The rows delivered so far: rows `0..rows_done`.
    pub rows_done: nat,
}

/// A sink in state `s` takes row `row_idx` of `row_width` pixels next: rows
/// come after the size, in order from 0, each once, each as wide as the image.
pub open spec fn row_accepted(s: SinkState, row_idx: int, row_width: int) -> bool {
    &&& s.sized
    &&& row_idx == s.rows_done
    &&& row_idx < s.height
    &&& row_width == s.width
}

/// The state after a row was taken.
pub open spec fn after_row(s: SinkState) -> SinkState {
    SinkState { rows_done: s.rows_done + 1, ..s }
}

/// The state after `calls` (row index, row width) were taken one after
/// another, starting from `s`; `None` once one of them is refused.
pub open spec fn after_rows(s: SinkState, calls: Seq<(int, int)>) -> Option<SinkState>
    decreases calls.len(),
{
    if calls.len() == 0 {
        Some(s)
    } else if row_accepted(s, calls[0].0, calls[0].1) {
        after_rows(after_row(s), calls.drop_first())
    } else {
        None
    }
}

/// After `init_size(n, m)`, a sequence of row calls is taken exactly when its
/// `i`-th call is row `i` of width `n`, with at most `m` calls; the image is
/// complete exactly when there were `m` of them. Any other sequence is refused
/// at its first departure, which a decoder integration treats as fatal.
pub proof fn lemma_row_protocol(n: nat, m: nat, calls: Seq<(int, int)>)
    ensures
        after_rows(SinkState { sized: true, width: n, height: m, rows_done: 0 }, calls) is Some
            <==> (calls.len() <= m && forall|i: int| 0 <= i < calls.len() ==> #[trigger] calls[i] == (i, n as int)),
        after_rows(SinkState { sized: true, width: n, height: m, rows_done: 0 }, calls) matches Some(s)
            ==> s.rows_done == calls.len() && (s.rows_done == s.height <==> calls.len() == m),
{
    lemma_row_protocol_from(n, m, 0, calls);
}

proof fn lemma_row_protocol_from(n: nat, m: nat, k: nat, calls: Seq<(int, int)>)
    requires
        k <= m,
    ensures
        after_rows(SinkState { sized: true, width: n, height: m, rows_done: k }, calls) is Some
            <==> (k + calls.len() <= m && forall|i: int| 0 <= i < calls.len() ==> #[trigger] calls[i] == (k + i, n as int)),
        after_rows(SinkState { sized: true, width: n, height: m, rows_done: k }, calls) matches Some(s)
            ==> s.rows_done == k + calls.len() && s.height == m,
    decreases calls.len(),
{
    let s = SinkState { sized: true, width: n, height: m, rows_done: k };
    if calls.len() > 0 {
        let rest = calls.drop_first();
        if k < m {
            lemma_row_protocol_from(n, m, k + 1, rest);
        }
        assert(after_row(s) == SinkState { sized: true, width: n, height: m, rows_done: k + 1 });
        if (k + calls.len() <= m && forall|i: int| 0 <= i < calls.len() ==> #[trigger] calls[i] == (k + i, n as int)) {
            assert(calls[0] == (k as int, n as int));
            assert forall|i: int| 0 <= i < rest.len() implies #[trigger] rest[i] == ((k + 1) + i, n as int) by {
                assert(calls[i + 1] == (k + (i + 1), n as int));
            }
        }
        if after_rows(s, calls) is Some {
            assert forall|i: int| 0 <= i < calls.len() implies #[trigger] calls[i] == (k + i, n as int) by {
                if i > 0 {
                    assert(rest[i - 1] == calls[i]);
                }
            }
        }
    }
}

/// A buffer that a decoder fills: the size first, then every row once, in
/// order, in one layout, and at most one EXIF payload.
pub trait ImageWriter {
    /// What the sink has received.
    spec fn sink_state(&self) -> SinkState;

    /// The sink's internal invariant.
    spec fn sink_inv(&self) -> bool;

    /// Sets the size of the image and allocates its pixels; called once,
    /// before any row.
    fn init_size(&mut self, width: usize, height: usize)
        requires
            old(self).sink_inv(),
            !old(self).sink_state().sized,
            1 <= width,
            1 <= height,
            width * height * 3 <= usize::MAX,
        ensures
            final(self).sink_inv(),
            final(self).sink_state() == (SinkState {
                sized: true,
                width: width as nat,
                height: height as nat,
                rows_done: 0,
            }),
    ;

    /// Whether `init_size` has been called.
    fn is_sized(&self) -> (r: bool)
        requires
            self.sink_inv(),
        ensures
            r == self.sink_state().sized,
    ;

    /// Whether a row call with these arguments keeps the protocol.
    fn accepts_row(&self, row_idx: usize, row_width: usize) -> (r: bool)
        requires
            self.sink_inv(),
        ensures
            r == row_accepted(self.sink_state(), row_idx as int, row_width as int),
    ;

    /// Stores a row of one byte of luma per pixel.
    fn write_row_gray(&mut self, row_idx: usize, row: &[u8], row_width: usize)
        requires
            old(self).sink_inv(),
            row_accepted(old(self).sink_state(), row_idx as int, row_width as int),
            row@.len() == row_width,
        ensures
            final(self).sink_inv(),
            final(self).sink_state() == after_row(old(self).sink_state()),
    ;

    /// Stores a row of luma and alpha per pixel.
    fn write_row_grayx(&mut self, row_idx: usize, row: &[u8], row_width: usize)
        requires
            old(self).sink_inv(),
            row_accepted(old(self).sink_state(), row_idx as int, row_width as int),
            row@.len() == 2 * row_width,
        ensures
            final(self).sink_inv(),
            final(self).sink_state() == after_row(old(self).sink_state()),
    ;

    /// Stores a row of red, green and blue per pixel.
    fn write_row_rgb(&mut self, row_idx: usize, row: &[u8], row_width: usize)
        requires
            old(self).sink_inv(),
            row_accepted(old(self).sink_state(), row_idx as int, row_width as int),
            row@.len() == 3 * row_width,
        ensures
            final(self).sink_inv(),
            final(self).sink_state() == after_row(old(self).sink_state()),
    ;

    /// Stores a row of red, green, blue and a fourth byte per pixel.
    fn write_row_rgbx(&mut self, row_idx: usize, row: &[u8], row_width: usize)
        requires
            old(self).sink_inv(),
            row_accepted(old(self).sink_state(), row_idx as int, row_width as int),
            row@.len() == 4 * row_width,
        ensures
            final(self).sink_inv(),
            final(self).sink_state() == after_row(old(self).sink_state()),
    ;

    /// Reads the orientation code from a raw EXIF payload; 0 when it has none.
    /// A payload that fails to parse never fails the decode.
    fn parse_exif(&mut self, exif: &[u8]) -> (r: i32)
        requires
            old(self).sink_inv(),
        ensures
            final(self).sink_inv(),
            final(self).sink_state() == old(self).sink_state(),
            r == crate::exif::orientation_or_zero(exif@),
    ;
}

} // verus!
