//! Raw single-channel sensor images: a pixel buffer over unsigned integer
//! elements, Bayer sampling of RGB images, and a little-endian binary codec.
use vstd::prelude::*;

pub mod bayer;
pub mod buffer;
pub mod codec;
pub mod error;
pub mod laws;
pub mod pixel;

pub use bayer::{CfaLayout, Channel, RgbFrame};
pub use buffer::PixelBuffer;
pub use error::RawError;
pub use pixel::Pixel;

verus! {

/// Another name for [`PixelBuffer`].
pub type NARaw<T> = PixelBuffer<T>;

/// Another name for [`PixelBuffer`].
pub type NDRaw<T> = PixelBuffer<T>;

} // verus!
