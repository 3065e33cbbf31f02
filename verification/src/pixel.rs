//! Pixel classification: a 4-channel pixel value is "solid" (should render)
//! iff each of its first three channels exceeds a fixed brightness threshold.

use vstd::prelude::*;

verus! {

/// Brightness threshold distinguishing a pixel that renders from one that
/// does not; each color channel must exceed it.
pub const COLOR_THRESHOLD: u8 = 170;

/// One RGBA pixel value.
#[derive(Clone, Copy, PartialEq, Eq, Structural, Debug)]
pub struct Pixel {
    pub r: u8,
    pub g: u8,
    pub b: u8,
    pub a: u8,
}

/// A pixel is solid iff each color channel exceeds the threshold; the alpha
/// channel is never consulted for animated content.
pub open spec fn is_solid_spec(p: Pixel) -> bool {
    p.r > COLOR_THRESHOLD && p.g > COLOR_THRESHOLD && p.b > COLOR_THRESHOLD
}

/// Classifies one pixel as solid or transparent.
pub fn is_solid(p: Pixel) -> (solid: bool)
    ensures
        solid == is_solid_spec(p),
{
    p.r > COLOR_THRESHOLD && p.g > COLOR_THRESHOLD && p.b > COLOR_THRESHOLD
}

/// The 24-bit blend color packed from a pixel's three color channels,
/// red in the low byte.
pub open spec fn blend_color_spec(p: Pixel) -> int {
    p.r + p.g * 0x100 + p.b * 0x10000
}

/// Packs a pixel's color channels into the authoring format's blend color.
pub fn pixel_color_to_blend_color(p: Pixel) -> (c: u32)
    ensures
        c == blend_color_spec(p),
{
    let r: u32 = p.r as u32;
    let g: u32 = p.g as u32;
    let b: u32 = p.b as u32;
    proof {
        assert(g <= 255 ==> (g << 8) == g * 0x100) by (bit_vector);
        assert(b <= 255 ==> (b << 16) == b * 0x10000) by (bit_vector);
    }
    r + (g << 8) + (b << 16)
}

} // verus!
