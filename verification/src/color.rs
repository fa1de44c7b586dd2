//! RGBA colours and the squared distance between them.

use vstd::prelude::*;

verus! {

/// The largest squared distance between two colours: four channels, each
/// differing by 255.
pub const MAX_DIST_SQUARED: i32 = 260100;

/// A colour with red, green, blue and alpha channels of eight bits each.
#[derive(Clone, Copy, Debug, PartialEq, Eq, Hash, Structural)]
pub struct Color {
    pub r: u8,
    pub g: u8,
    pub b: u8,
    pub a: u8,
}

/// The square of the difference of two channel values.
pub open spec fn channel_gap(x: u8, y: u8) -> int {
    (x - y) * (x - y)
}

/// The sum over the four channels of the squared differences.
pub open spec fn dist_squared_spec(p: Color, q: Color) -> int {
    channel_gap(p.r, q.r) + channel_gap(p.g, q.g) + channel_gap(p.b, q.b) + channel_gap(p.a, q.a)
}

/// A squared channel difference lies between 0 and 255 squared, and is 0 only
/// for equal channels.
pub proof fn lemma_channel_gap_bounds(x: u8, y: u8)
    ensures
        0 <= channel_gap(x, y) <= 65025,
        channel_gap(x, y) == 0 <==> x == y,
        channel_gap(x, y) == channel_gap(y, x),
{
    let d: int = x - y;
    assert(0 <= d * d <= 65025) by (nonlinear_arith)
        requires
            -255 <= d <= 255,
    ;
    assert(d * d == 0 <==> d == 0) by (nonlinear_arith);
    assert((x - y) * (x - y) == (y - x) * (y - x)) by (nonlinear_arith);
}

impl Color {
    /// The four channel bytes read as one number, red first.
    pub open spec fn code_spec(self) -> u32 {
        (((self.r * 256 + self.g) * 256 + self.b) * 256 + self.a) as u32
    }

    /// A colour from its four channels.
    pub fn new(r: u8, g: u8, b: u8, a: u8) -> (c: Color)
        ensures
            c == (Color { r, g, b, a }),
    {
        Color { r, g, b, a }
    }

    /// The four channel bytes read as one number, red first.
    #[verifier::when_used_as_spec(code_spec)]
    pub fn code(self) -> (k: u32)
        ensures
            k == self.code_spec(),
    {
        ((self.r as u32 * 256 + self.g as u32) * 256 + self.b as u32) * 256 + self.a as u32
    }
}

/// Two colours with the same code are the same colour.
pub proof fn lemma_code_injective(p: Color, q: Color)
    requires
        p.code_spec() == q.code_spec(),
    ensures
        p == q,
{
}

fn channel_gap_exec(x: u8, y: u8) -> (d: i32)
    ensures
        d == channel_gap(x, y),
        0 <= d <= 65025,
{
    proof {
        lemma_channel_gap_bounds(x, y);
    }
    let diff: i32 = x as i32 - y as i32;
    diff * diff
}

/// The squared Euclidean distance between two colours in RGBA space.
pub fn dist_squared(a: &Color, b: &Color) -> (d: i32)
    ensures
        d == dist_squared_spec(*a, *b),
        0 <= d <= MAX_DIST_SQUARED,
{
    channel_gap_exec(a.r, b.r) + channel_gap_exec(a.g, b.g) + channel_gap_exec(a.b, b.b)
        + channel_gap_exec(a.a, b.a)
}

} // verus!
