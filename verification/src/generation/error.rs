use vstd::prelude::*;

verus! {

/// Why an image could not be generated: the text to draw, the room it
/// needs in pixels, and the room there is.
#[derive(Debug, PartialEq, Eq)]
pub enum GenerationError {
    TextTooLong(String, u32, u32),
    TooManyLines(String, u32, u32),
}

} // verus!
