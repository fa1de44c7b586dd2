//! Scaling an image while keeping its palette.

use crate::error::ScaleError;
use crate::palette::Palette;
use crate::raster::Image;
use crate::resample::{rejection, upscale};
use crate::snap::{all_in_palette, snap};
use rand::rngs::StdRng;
use vstd::prelude::*;

verus! {

/// The image enlarged by `scale` in both directions, with every pixel of the
/// result set to a colour of the palette of `image`: the smooth enlargement
/// is snapped to the colours that `image` itself holds, and `rng` breaks the
/// ties between equally near colours.
///
/// The request is turned down as `rejection` says; otherwise the result has
/// `scale` times the width and the height of `image`.
pub fn palette_scale(image: &Image, scale: u32, rng: &mut StdRng) -> (r: Result<Image, ScaleError>)
    ensures
        match r {
            Ok(out) => {
                &&& rejection(image.spec_width(), image.spec_height(), scale) is None
                &&& out.wf()
                &&& out.spec_width() == image.spec_width() * scale
                &&& out.spec_height() == image.spec_height() * scale
                &&& all_in_palette(image.colors(), out@)
            },
            Err(e) => rejection(image.spec_width(), image.spec_height(), scale) == Some(e),
        },
{
    let mut resized = match upscale(image, scale) {
        Ok(resized) => resized,
        Err(e) => {
            return Err(e);
        },
    };
    let palette = Palette::from_image(image);
    proof {
        use_type_invariant(image);
        image.lemma_len();
        assert(image.spec_width() * image.spec_height() > 0) by (nonlinear_arith)
            requires
                image.spec_width() > 0,
                image.spec_height() > 0,
        ;
        palette.lemma_order();
    }
    // An image with pixels has a colour, so `snap` does not refuse its palette.
    match snap(&mut resized, &palette, rng) {
        Ok(()) => Ok(resized),
        Err(e) => Err(e),
    }
}

} // verus!
