//! Smooth enlargement of an image by a whole factor.

use crate::error::ScaleError;
use crate::raster::{lemma_rgba_round_trip, Image};
use vstd::prelude::*;

verus! {

/// The largest width or height of an enlarged image. Below it every pixel
/// position is exact in single precision, which the resampling works in.
pub const MAX_SIDE: u32 = 65535;

/// An image of these dimensions can be produced: neither side exceeds
/// `MAX_SIDE`, and its channel bytes fit in one allocation.
pub open spec fn output_fits(width: int, height: int) -> bool {
    &&& width <= MAX_SIDE
    &&& height <= MAX_SIDE
    &&& 4 * (width * height) <= isize::MAX
}

/// Why a request to enlarge an image of `width` by `height` pixels by
/// `scale` is turned down, if it is: for a scale of 0, for an image without
/// pixels, for a result that does not fit, in this order.
pub open spec fn rejection(width: u32, height: u32, scale: u32) -> Option<ScaleError> {
    if scale == 0 {
        Some(ScaleError::InvalidArguments)
    } else if width == 0 || height == 0 {
        Some(ScaleError::EmptySourceImage)
    } else if !output_fits(width * scale, height * scale) {
        Some(ScaleError::OutputTooLarge)
    } else {
        None
    }
}

/// Calls `image::imageops::resize` with the filter `Lanczos3` on the RGBA
/// image that `image::RgbaImage::from_raw` makes of the bytes, and hands the
/// bytes of the result out with `into_raw`. Trusted: `from_raw` accepts a
/// buffer that holds at least four bytes for each pixel, and the resized image
/// has the dimensions asked for, so four bytes for each of its pixels. The
/// colours of the result are not described. The demands keep the call to
/// enlargements of images with pixels, within sizes for which the resampling
/// neither overflows nor divides by zero.
#[verifier::external_body]
pub(crate) fn resize_lanczos3(
    bytes: Vec<u8>,
    width: u32,
    height: u32,
    nwidth: u32,
    nheight: u32,
) -> (out: Option<Vec<u8>>)
    requires
        0 < width <= nwidth,
        0 < height <= nheight,
        output_fits(nwidth as int, nheight as int),
    ensures
        out is Some <==> bytes@.len() >= 4 * (width * height),
        out matches Some(v) ==> v@.len() == 4 * (nwidth * nheight),
{
    let source = ::image::RgbaImage::from_raw(width, height, bytes)?;
    let filter = ::image::imageops::FilterType::Lanczos3;
    Some(::image::imageops::resize(&source, nwidth, nheight, filter).into_raw())
}

/// Why a request to enlarge an image of these dimensions by `scale` is turned
/// down, if it is.
pub fn check_request(width: u32, height: u32, scale: u32) -> (r: Option<ScaleError>)
    ensures
        r == rejection(width, height, scale),
{
    if scale == 0 {
        return Some(ScaleError::InvalidArguments);
    }
    if width == 0 || height == 0 {
        return Some(ScaleError::EmptySourceImage);
    }
    assert(width * scale <= 0xffff_ffff * 0xffff_ffff && height * scale <= 0xffff_ffff
        * 0xffff_ffff) by (nonlinear_arith)
        requires
            width <= 0xffff_ffff,
            height <= 0xffff_ffff,
            scale <= 0xffff_ffff,
    ;
    let nwidth: u64 = width as u64 * scale as u64;
    let nheight: u64 = height as u64 * scale as u64;
    if nwidth > MAX_SIDE as u64 || nheight > MAX_SIDE as u64 {
        return Some(ScaleError::OutputTooLarge);
    }
    assert(nwidth * nheight <= 65535 * 65535) by (nonlinear_arith)
        requires
            nwidth <= 65535,
            nheight <= 65535,
    ;
    if 4 * (nwidth * nheight) > isize::MAX as u64 {
        return Some(ScaleError::OutputTooLarge);
    }
    None
}

/// The image enlarged by `scale` in both directions with a smooth filter
/// (Lanczos, window 3). The result has `scale` times the width and height of
/// `image`; its colours are those that the resampling gives.
pub fn upscale(image: &Image, scale: u32) -> (r: Result<Image, ScaleError>)
    ensures
        match r {
            Ok(out) => {
                &&& rejection(image.spec_width(), image.spec_height(), scale) is None
                &&& out.wf()
                &&& out.spec_width() == image.spec_width() * scale
                &&& out.spec_height() == image.spec_height() * scale
            },
            Err(e) => rejection(image.spec_width(), image.spec_height(), scale) == Some(e),
        },
{
    let width: u32 = image.width();
    let height: u32 = image.height();
    if let Some(e) = check_request(width, height, scale) {
        return Err(e);
    }
    let nwidth: u32 = width * scale;
    let nheight: u32 = height * scale;
    proof {
        use_type_invariant(image);
        image.lemma_len();
        lemma_rgba_round_trip(image@);
        assert(width <= width * scale && height <= height * scale) by (nonlinear_arith)
            requires
                scale >= 1,
                width >= 0,
                height >= 0,
        ;
    }
    let bytes = image.to_raw();
    let resized = resize_lanczos3(bytes, width, height, nwidth, nheight).unwrap();
    let out = Image::from_raw(nwidth, nheight, &resized).unwrap();
    Ok(out)
}

} // verus!
