//! The failures that a caller can recover from.

use vstd::prelude::*;

verus! {

/// Why an operation on images was refused. Nothing has been changed when one
/// of these is returned.
#[derive(Clone, Copy, Debug, PartialEq, Eq, Structural)]
pub enum ImageError {
    /// The number of pixels handed over is not the product of the dimensions.
    InvalidDimensions { width: u32, height: u32, len: usize },
    /// The number of channel values handed over is not a multiple of the
    /// number of channels of a pixel.
    IncompletePixel { len: usize, channels: u32 },
    /// The number of pixels that the channel values make up is not the
    /// product of the dimensions.
    IncorrectBufferSize { pixels: usize, width: u32, height: u32 },
    /// The two operands of an arithmetic operation differ in their dimensions.
    DimensionMismatch { left_width: u32, left_height: u32, right_width: u32, right_height: u32 },
    /// The source and the destination rectangle of a copy differ in size.
    RectSizeMismatch {
        source_width: u32,
        source_height: u32,
        destination_width: u32,
        destination_height: u32,
    },
    /// The source rectangle of a copy does not lie within the source image.
    SourceRectOutOfBounds,
    /// The destination rectangle of a copy does not lie within the
    /// destination image.
    DestinationRectOutOfBounds,
}

impl ImageError {
    /// The failure is a disagreement of dimensions or sizes, as opposed to a
    /// rectangle that does not lie within its image.
    pub open spec fn spec_is_dimension_error(&self) -> bool {
        !(self is SourceRectOutOfBounds) && !(self is DestinationRectOutOfBounds)
    }

    /// A short description of the failure.
    pub open spec fn spec_description(&self) -> Seq<char> {
        match self {
            ImageError::InvalidDimensions { .. } => "Dimensions do not match the number of pixels"@,
            ImageError::IncompletePixel { .. } => "Buffer does not divide into whole pixels"@,
            ImageError::IncorrectBufferSize { .. } => "Buffer has incorrect size"@,
            ImageError::DimensionMismatch { .. } => "Image dimensions do not match"@,
            ImageError::RectSizeMismatch { .. } => "Rects are not the same size"@,
            ImageError::SourceRectOutOfBounds => "Source rect does not fit source image"@,
            ImageError::DestinationRectOutOfBounds => "Destination rect does not fit destination image"@,
        }
    }

    /// Return a short description of the failure.
    pub fn description(&self) -> (s: &'static str)
        ensures
            s@ == self.spec_description(),
    {
        match self {
            ImageError::InvalidDimensions { .. } => "Dimensions do not match the number of pixels",
            ImageError::IncompletePixel { .. } => "Buffer does not divide into whole pixels",
            ImageError::IncorrectBufferSize { .. } => "Buffer has incorrect size",
            ImageError::DimensionMismatch { .. } => "Image dimensions do not match",
            ImageError::RectSizeMismatch { .. } => "Rects are not the same size",
            ImageError::SourceRectOutOfBounds => "Source rect does not fit source image",
            ImageError::DestinationRectOutOfBounds => "Destination rect does not fit destination image",
        }
    }

    /// Return `true` if the failure is a disagreement of dimensions or sizes,
    /// `false` if a rectangle does not lie within its image.
    pub fn is_dimension_error(&self) -> (b: bool)
        ensures
            b == self.spec_is_dimension_error(),
    {
        match self {
            ImageError::SourceRectOutOfBounds => false,
            ImageError::DestinationRectOutOfBounds => false,
            _ => true,
        }
    }
}

} // verus!
