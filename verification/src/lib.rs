//! Palette-preserving upscaling for pixel art.
//!
//! An image is enlarged with a smooth resampling filter and every pixel of the
//! result is then replaced by the nearest colour of the source image's palette,
//! so that the enlarged image holds no colour that the source did not hold.
//!
//! [`palette_scale`] does the whole: it takes the [`Palette`] of the source,
//! enlarges the source with [`resample::upscale`] and snaps the result with
//! [`snap::snap`]. A colour of the palette stays as it is; any other colour
//! goes to a colour of the palette at the least squared distance, and a
//! random generator decides between several of them.

pub mod args;
pub mod color;
pub mod error;
pub mod palette;
pub mod raster;
pub mod resample;
pub mod scale;
pub mod snap;
pub mod tiebreak;

pub use crate::color::{dist_squared, Color};
pub use crate::error::ScaleError;
pub use crate::palette::Palette;
pub use crate::raster::Image;
pub use crate::scale::palette_scale;
