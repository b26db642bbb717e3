//! The settings of the native decoders, one per format that has one.

use vstd::prelude::*;
use crate::format::ImageFormat;

verus! {

/// The native JPEG decoder.
pub struct NSJpegDecoder {
    color_managed: bool,
}

impl View for NSJpegDecoder {
    type V = bool;

    /// Whether the decoder applies the color-management transform.
    closed spec fn view(&self) -> bool {
        self.color_managed
    }
}

impl NSJpegDecoder {
    pub fn new(color_mgmt: bool) -> (r: Self)
        ensures
            r@ == color_mgmt,
    {
        NSJpegDecoder { color_managed: color_mgmt }
    }

    /// Whether the decoder applies the color-management transform.
    pub fn is_color_managed(&self) -> (r: bool)
        ensures
            r == self@,
    {
        self.color_managed
    }

    /// The format this decoder reads.
    pub fn format(&self) -> (r: ImageFormat)
        ensures
            r == ImageFormat::Jpeg,
    {
        ImageFormat::Jpeg
    }
}

/// The native PNG decoder.
pub struct NSPngDecoder {
    color_managed: bool,
}

impl View for NSPngDecoder {
    type V = bool;

    /// Whether the decoder applies the color-management transform.
    closed spec fn view(&self) -> bool {
        self.color_managed
    }
}

impl NSPngDecoder {
    pub fn new(color_mgmt: bool) -> (r: Self)
        ensures
            r@ == color_mgmt,
    {
        NSPngDecoder { color_managed: color_mgmt }
    }

    /// Whether the decoder applies the color-management transform.
    pub fn is_color_managed(&self) -> (r: bool)
        ensures
            r == self@,
    {
        self.color_managed
    }

    /// The format this decoder reads.
    pub fn format(&self) -> (r: ImageFormat)
        ensures
            r == ImageFormat::Png,
    {
        ImageFormat::Png
    }
}

} // verus!
