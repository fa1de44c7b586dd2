//! The reasons for which a request to scale an image is turned down.

use vstd::prelude::*;

verus! {

/// Why an image was not scaled.
#[derive(Clone, Copy, Debug, PartialEq, Eq, Structural)]
pub enum ScaleError {
    /// The scale factor is not a positive integer.
    InvalidArguments,
    /// The source image has no pixel, so its palette is empty.
    EmptySourceImage,
    /// The scaled image would exceed the supported size.
    OutputTooLarge,
}

impl ScaleError {
    /// The text that `message` returns for each error.
    pub open spec fn message_spec(self) -> Seq<char> {
        match self {
            ScaleError::InvalidArguments => "the scale factor must be a positive integer"@,
            ScaleError::EmptySourceImage => "the source image is empty"@,
            ScaleError::OutputTooLarge => "the scaled image would be too large"@,
        }
    }

    /// A message for the user.
    pub fn message(&self) -> (m: &'static str)
        ensures
            m@ == self.message_spec(),
    {
        match self {
            ScaleError::InvalidArguments => "the scale factor must be a positive integer",
            ScaleError::EmptySourceImage => "the source image is empty",
            ScaleError::OutputTooLarge => "the scaled image would be too large",
        }
    }
}

} // verus!
