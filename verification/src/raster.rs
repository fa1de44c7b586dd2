//! Images as row-major grids of colours.

use crate::color::Color;
use vstd::prelude::*;

verus! {

/// A grid of `width` by `height` colours, stored row after row.
#[derive(Debug)]
pub struct Image {
    width: u32,
    height: u32,
    pixels: Vec<Color>,
}

/// Channel `k` of a colour, in the order red, green, blue, alpha.
pub open spec fn channel(c: Color, k: int) -> u8 {
    if k == 0 {
        c.r
    } else if k == 1 {
        c.g
    } else if k == 2 {
        c.b
    } else {
        c.a
    }
}

/// The channel bytes of a sequence of pixels, four per pixel.
pub open spec fn rgba_bytes(pixels: Seq<Color>) -> Seq<u8> {
    Seq::new(4 * pixels.len(), |i: int| channel(pixels[i / 4], i % 4))
}

/// The pixels that a sequence of channel bytes holds, one per four bytes.
pub open spec fn rgba_pixels(bytes: Seq<u8>) -> Seq<Color> {
    Seq::new(
        bytes.len() / 4,
        |i: int| Color { r: bytes[4 * i], g: bytes[4 * i + 1], b: bytes[4 * i + 2], a: bytes[4 * i + 3] },
    )
}

/// The position of pixel `(x, y)` in a row-major grid lies inside the grid.
pub proof fn lemma_pixel_index(width: int, height: int, x: int, y: int)
    requires
        0 <= x < width,
        0 <= y < height,
    ensures
        0 <= y * width + x < width * height,
        y * width + width <= width * height,
{
    assert(0 <= y * width) by (nonlinear_arith)
        requires
            0 <= y,
            0 <= width,
    ;
    assert(y * width + width <= width * height) by (nonlinear_arith)
        requires
            0 <= y < height,
            0 <= width,
    ;
}

/// Splitting pixels into channel bytes and regrouping them gives the pixels
/// back.
pub proof fn lemma_rgba_round_trip(pixels: Seq<Color>)
    ensures
        rgba_pixels(rgba_bytes(pixels)) == pixels,
        rgba_bytes(pixels).len() == 4 * pixels.len(),
{
}

impl View for Image {
    type V = Seq<Color>;

    /// The pixels, row after row.
    closed spec fn view(&self) -> Seq<Color> {
        self.pixels@
    }
}

impl Image {
    /// The grid holds exactly `width * height` pixels.
    #[verifier::type_invariant]
    pub closed spec fn wf(&self) -> bool {
        self.pixels@.len() == self.width * self.height
    }

    /// The number of columns.
    pub closed spec fn spec_width(&self) -> u32 {
        self.width
    }

    /// The number of rows.
    pub closed spec fn spec_height(&self) -> u32 {
        self.height
    }

    /// The colour at column `x` of row `y`.
    pub open spec fn spec_pixel(&self, x: int, y: int) -> Color {
        self@[y * self.spec_width() + x]
    }

    /// The set of colours that occur in the image.
    pub open spec fn colors(&self) -> Set<Color> {
        self@.to_set()
    }

    /// A well-formed image has as many pixels as its dimensions say.
    pub proof fn lemma_len(&self)
        requires
            self.wf(),
        ensures
            self@.len() == self.spec_width() * self.spec_height(),
    {
    }

    /// An image of the given dimensions over `pixels`, if their number is
    /// `width * height`.
    pub fn from_pixels(width: u32, height: u32, pixels: Vec<Color>) -> (r: Option<Image>)
        ensures
            r is Some <==> pixels@.len() == width * height,
            r matches Some(img) ==> img.wf() && img.spec_width() == width && img.spec_height()
                == height && img@ == pixels@,
    {
        assert(width * height <= 0xffff_ffff * 0xffff_ffff) by (nonlinear_arith)
            requires
                0 <= width <= 0xffff_ffff,
                0 <= height <= 0xffff_ffff,
        ;
        let area: u64 = width as u64 * height as u64;
        if pixels.len() as u64 == area {
            Some(Image { width, height, pixels })
        } else {
            None
        }
    }

    /// An image of the given dimensions from its channel bytes, four per
    /// pixel and row after row, if their number is `4 * width * height`.
    pub fn from_raw(width: u32, height: u32, bytes: &Vec<u8>) -> (r: Option<Image>)
        ensures
            r is Some <==> bytes@.len() == 4 * (width * height),
            r matches Some(img) ==> img.wf() && img.spec_width() == width && img.spec_height()
                == height && img@ == rgba_pixels(bytes@),
    {
        assert(width * height <= 0xffff_ffff * 0xffff_ffff) by (nonlinear_arith)
            requires
                0 <= width <= 0xffff_ffff,
                0 <= height <= 0xffff_ffff,
        ;
        let area: u64 = width as u64 * height as u64;
        let count: usize = bytes.len() / 4;
        if bytes.len() % 4 != 0 || count as u64 != area {
            return None;
        }
        let mut pixels: Vec<Color> = Vec::with_capacity(count);
        let mut i: usize = 0;
        while i < count
            invariant
                i <= count,
                bytes@.len() == 4 * count,
                bytes@.len() == bytes.len(),
                pixels@ == rgba_pixels(bytes@).take(i as int),
            decreases count - i,
        {
            let c = Color::new(bytes[4 * i], bytes[4 * i + 1], bytes[4 * i + 2], bytes[4 * i + 3]);
            pixels.push(c);
            i += 1;
        }
        Some(Image { width, height, pixels })
    }

    /// The channel bytes of the image, four per pixel and row after row.
    pub fn to_raw(&self) -> (bytes: Vec<u8>)
        ensures
            bytes@ == rgba_bytes(self@),
    {
        let n: usize = self.pixels.len();
        let mut bytes: Vec<u8> = Vec::new();
        let mut i: usize = 0;
        while i < n
            invariant
                i <= n,
                n == self.pixels@.len(),
                bytes@ == rgba_bytes(self.pixels@.take(i as int)),
            decreases n - i,
        {
            let c = self.pixels[i];
            bytes.push(c.r);
            bytes.push(c.g);
            bytes.push(c.b);
            bytes.push(c.a);
            i += 1;
        }
        bytes
    }

    /// The number of columns.
    #[verifier::when_used_as_spec(spec_width)]
    pub fn width(&self) -> (w: u32)
        ensures
            w == self.spec_width(),
    {
        self.width
    }

    /// The number of rows.
    #[verifier::when_used_as_spec(spec_height)]
    pub fn height(&self) -> (h: u32)
        ensures
            h == self.spec_height(),
    {
        self.height
    }

    /// The pixels, row after row.
    pub fn pixels(&self) -> (p: &Vec<Color>)
        ensures
            p@ == self@,
            self.wf(),
    {
        proof {
            use_type_invariant(self);
        }
        &self.pixels
    }

    /// The colour at column `x` of row `y`.
    pub fn get_pixel(&self, x: u32, y: u32) -> (c: Color)
        requires
            x < self.spec_width(),
            y < self.spec_height(),
        ensures
            c == self.spec_pixel(x as int, y as int),
            self.wf(),
    {
        proof {
            use_type_invariant(self);
            lemma_pixel_index(self.width as int, self.height as int, x as int, y as int);
            assert(self.pixels@.len() == self.pixels.len());
        }
        self.pixels[y as usize * self.width as usize + x as usize]
    }

    /// Replaces the colour at column `x` of row `y`.
    pub fn put_pixel(&mut self, x: u32, y: u32, c: Color)
        requires
            x < old(self).spec_width(),
            y < old(self).spec_height(),
        ensures
            final(self).wf(),
            final(self).spec_width() == old(self).spec_width(),
            final(self).spec_height() == old(self).spec_height(),
            final(self)@ == old(self)@.update(y * old(self).spec_width() + x, c),
    {
        proof {
            use_type_invariant(&*self);
            lemma_pixel_index(self.width as int, self.height as int, x as int, y as int);
            assert(self.pixels@.len() == self.pixels.len());
        }
        let i: usize = y as usize * self.width as usize + x as usize;
        self.pixels[i] = c;
    }
}

} // verus!
