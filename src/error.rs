//! The failures that the library reports.
use vstd::prelude::*;

verus! {

/// Why an operation on a raw image failed.
#[derive(Debug, Clone, Copy, PartialEq, Eq, Structural)]
pub enum RawError {
    /// A zero width or height, or rows of differing lengths.
    InvalidDimensions,
    /// A coordinate outside the image.
    OutOfBounds,
    /// A value that the target integer type cannot hold.
    ConversionOverflow,
    /// Encoded input that ends before its header's raster does.
    TruncatedStream,
    /// An image file that could not be read or decoded.
    UnderlyingDecodeFailure,
}

} // verus!
