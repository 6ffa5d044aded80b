use vstd::prelude::*;
use crate::generation::error::GenerationError;
use crate::operations::format_converter::error::RestrorationError;

verus! {

/// Why an operation failed.
#[derive(Debug, PartialEq, Eq)]
pub enum ProcessorError {
    /// The operation takes a raster image and got something else.
    ImageNotFound,
    /// The operation takes an icon and got something else.
    DMINotFound,
    /// The atlas is one tile per direction too wide or too narrow: the
    /// expected and the actual width in pixels, the expected and the actual
    /// number of tiles per direction.
    ImageWidthOffByOne(u32, u32, u32, u32),
    /// The atlas holds the tiles of another number of directions: the
    /// expected and the actual width in pixels, the expected and the actual
    /// number of directions.
    ImageWidthOffByDirection(u32, u32, u32, u32),
    /// The atlas has a width that nothing explains: the expected and the
    /// actual width in pixels.
    ImproperImageWidth(u32, u32),
    /// An image could not be read, written or changed; what the image
    /// library said.
    ImageError(String),
    RestorationFailed(RestrorationError),
    GenerationFailed(GenerationError),
    /// The configuration says something that cannot be done.
    ConfigError(String),
}

} // verus!
