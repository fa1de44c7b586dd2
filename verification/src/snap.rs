//! Snapping: replacing a colour by a nearest colour of a palette.

use crate::color::{dist_squared_spec, lemma_channel_gap_bounds, Color};
use crate::error::ScaleError;
use crate::palette::{is_min_distance, is_nearest, Palette};
use crate::raster::{lemma_pixel_index, Image};
use crate::tiebreak::choose_color;
use rand::rngs::StdRng;
use vstd::prelude::*;

verus! {

/// `out` may replace `c`: it is `c` itself where `c` is a colour of the
/// palette, and otherwise one of the palette's colours nearest to `c`.
pub open spec fn is_snap_of(palette: Set<Color>, c: Color, out: Color) -> bool {
    if palette.contains(c) {
        out == c
    } else {
        is_nearest(palette, c, out)
    }
}

/// Every pixel of `after` may replace the pixel of `before` at its place.
pub open spec fn is_snapped(palette: Set<Color>, before: Seq<Color>, after: Seq<Color>) -> bool {
    &&& after.len() == before.len()
    &&& forall|i: int| 0 <= i < before.len() ==> is_snap_of(palette, before[i], #[trigger] after[i])
}

/// Every colour of `pixels` is a colour of `palette`.
pub open spec fn all_in_palette(palette: Set<Color>, pixels: Seq<Color>) -> bool {
    forall|i: int| 0 <= i < pixels.len() ==> palette.contains(#[trigger] pixels[i])
}

/// Two colours are at distance 0 exactly if they are equal.
pub proof fn lemma_dist_zero(p: Color, q: Color)
    ensures
        0 <= dist_squared_spec(p, q),
        dist_squared_spec(p, q) == 0 <==> p == q,
        dist_squared_spec(p, q) == dist_squared_spec(q, p),
{
    lemma_channel_gap_bounds(p.r, q.r);
    lemma_channel_gap_bounds(p.g, q.g);
    lemma_channel_gap_bounds(p.b, q.b);
    lemma_channel_gap_bounds(p.a, q.a);
}

/// A colour that replaces another is a colour of the palette.
pub proof fn lemma_snap_in_palette(palette: Set<Color>, c: Color, out: Color)
    requires
        is_snap_of(palette, c, out),
    ensures
        palette.contains(out),
{
}

/// Snapped pixels are all colours of the palette.
pub proof fn lemma_snapped_in_palette(palette: Set<Color>, before: Seq<Color>, after: Seq<Color>)
    requires
        is_snapped(palette, before, after),
    ensures
        all_in_palette(palette, after),
{
}

/// A colour of the palette is replaced by itself.
pub proof fn lemma_snap_keeps_palette_colors(palette: Set<Color>, c: Color, out: Color)
    requires
        palette.contains(c),
        is_snap_of(palette, c, out),
    ensures
        out == c,
{
}

/// The colour that replaces `c` is at the least squared distance from `c`
/// that the palette offers: no colour of the palette is strictly closer.
pub proof fn lemma_snap_is_nearest(palette: Set<Color>, c: Color, out: Color)
    requires
        is_snap_of(palette, c, out),
    ensures
        is_nearest(palette, c, out),
        is_min_distance(palette, c, dist_squared_spec(out, c)),
        forall|q: Color| palette.contains(q) ==> dist_squared_spec(out, c) <= dist_squared_spec(q, c),
{
    if palette.contains(c) {
        lemma_dist_zero(c, c);
        assert forall|q: Color| #[trigger] palette.contains(q) implies dist_squared_spec(out, c)
            <= dist_squared_spec(q, c) by {
            lemma_dist_zero(q, c);
        }
    }
}

/// Being nearest and being an admissible replacement are the same thing:
/// the exact match is the one nearest colour of a colour of the palette.
pub proof fn lemma_nearest_is_snap(palette: Set<Color>, c: Color, out: Color)
    requires
        is_nearest(palette, c, out),
    ensures
        is_snap_of(palette, c, out),
{
    if palette.contains(c) {
        lemma_dist_zero(c, c);
        lemma_dist_zero(out, c);
    }
}

/// Where exactly one colour of the palette is nearest to `c`, it is the one
/// that replaces `c`: the tie-break has nothing to decide.
pub proof fn lemma_unique_nearest_is_chosen(palette: Set<Color>, c: Color, p: Color, out: Color)
    requires
        is_nearest(palette, c, p),
        forall|q: Color| is_nearest(palette, c, q) ==> q == p,
        is_snap_of(palette, c, out),
    ensures
        out == p,
{
    lemma_snap_is_nearest(palette, c, out);
}

/// An image whose pixels are all colours of the palette is left as it is.
pub proof fn lemma_snap_of_palette_image(palette: Set<Color>, before: Seq<Color>, after: Seq<Color>)
    requires
        forall|i: int| 0 <= i < before.len() ==> palette.contains(#[trigger] before[i]),
        is_snapped(palette, before, after),
    ensures
        after == before,
{
}

/// Snapping an image that was already snapped to the same palette changes
/// nothing.
pub proof fn lemma_snap_twice(
    palette: Set<Color>,
    before: Seq<Color>,
    once: Seq<Color>,
    twice: Seq<Color>,
)
    requires
        is_snapped(palette, before, once),
        is_snapped(palette, once, twice),
    ensures
        twice == once,
{
    lemma_snap_of_palette_image(palette, once, twice);
}

/// The colour that replaces `color`: `color` itself where the palette holds
/// it, and otherwise one of the palette's nearest colours, picked at random
/// among them. `None` exactly for the empty palette.
pub fn snap_color(palette: &Palette, color: Color, rng: &mut StdRng) -> (r: Option<Color>)
    ensures
        r is None <==> palette@.len() == 0,
        r matches Some(out) ==> is_snap_of(palette@, color, out),
{
    if palette.contains(&color) {
        proof {
            use_type_invariant(palette);
            palette.lemma_order();
        }
        return Some(color);
    }
    let candidates = palette.nearest_colors(&color);
    choose_color(&candidates, rng)
}

/// Replaces every pixel of `image` by a colour of `palette`: a pixel whose
/// colour the palette holds stays, any other gets one of the nearest colours
/// of the palette. An empty palette is refused and leaves the image as it is.
pub fn snap(image: &mut Image, palette: &Palette, rng: &mut StdRng) -> (r: Result<(), ScaleError>)
    ensures
        final(image).wf(),
        final(image).spec_width() == old(image).spec_width(),
        final(image).spec_height() == old(image).spec_height(),
        r is Err <==> palette@.len() == 0,
        r matches Err(e) ==> e == ScaleError::EmptySourceImage && final(image)@ == old(image)@,
        r is Ok ==> is_snapped(palette@, old(image)@, final(image)@),
        r is Ok ==> all_in_palette(palette@, final(image)@),
{
    proof {
        use_type_invariant(&*image);
        image.lemma_len();
    }
    if palette.is_empty() {
        return Err(ScaleError::EmptySourceImage);
    }
    let width: u32 = image.width();
    let height: u32 = image.height();
    let ghost start = image@;
    let mut y: u32 = 0;
    while y < height
        invariant
            y <= height,
            image.wf(),
            image.spec_width() == width,
            image.spec_height() == height,
            palette@.len() != 0,
            image@.len() == start.len(),
            start.len() == width * height,
            forall|i: int| 0 <= i < y * width ==> is_snap_of(palette@, start[i], #[trigger] image@[i]),
            forall|i: int| y * width <= i < start.len() ==> image@[i] == start[i],
        decreases height - y,
    {
        let mut x: u32 = 0;
        while x < width
            invariant
                y < height,
                x <= width,
                image.wf(),
                image.spec_width() == width,
                image.spec_height() == height,
                palette@.len() != 0,
                image@.len() == start.len(),
                start.len() == width * height,
                forall|i: int|
                    0 <= i < y * width + x ==> is_snap_of(palette@, start[i], #[trigger] image@[i]),
                forall|i: int| y * width + x <= i < start.len() ==> image@[i] == start[i],
            decreases width - x,
        {
            proof {
                lemma_pixel_index(width as int, height as int, x as int, y as int);
            }
            let color = image.get_pixel(x, y);
            let out = snap_color(palette, color, rng).unwrap();
            image.put_pixel(x, y, out);
            x += 1;
        }
        proof {
            assert((y + 1) * width == y * width + width) by (nonlinear_arith);
        }
        y += 1;
    }
    Ok(())
}

} // verus!
