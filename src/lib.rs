//! Decoding front-end for raster image streams: format sniffing, fallback
//! dispatch over the native decoders, the row-oriented pixel sink protocol,
//! the EXIF orientation parser and the image buffers that assemble rows.

pub mod color;
pub mod decode;
pub mod decoders;
pub mod endian;
pub mod exif;
pub mod format;
pub mod image;
pub mod raster;
pub mod sink;

pub use color::ColorMgmt;
pub use decode::{DecodeError, DecodeOrchestrator, DecodeStep};
pub use decoders::{NSJpegDecoder, NSPngDecoder};
pub use exif::{parse_exif, ExifError};
pub use format::{guess_image_format_from_magicnum, ImageFormat};
pub use image::{ColorImage, ResampleFilter};
pub use raster::RasterImage;
pub use sink::{ImageWriter, RowLayout};
