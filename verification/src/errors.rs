use vstd::prelude::*;

verus! {

/// Errors raised while applying operations to an image.
#[derive(Clone, Copy, PartialEq, Eq, Structural, Debug)]
pub enum SicImageEngineError {
    /// An auxiliary image resource could not be loaded or was malformed.
    LoadImageFromPath,
    /// A crop selection is empty or does not lie inside the image bounds.
    CropOutOfBounds,
}

} // verus!
