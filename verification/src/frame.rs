//! Frames: one timed raster sample of an animation, as a row-major grid of
//! RGBA pixels, plus well-formedness of a frame sequence.

use vstd::prelude::*;

use crate::pixel::Pixel;

verus! {

/// One decoded animation frame: a `height` x `width` row-major pixel grid.
pub struct Frame {
    pub width: usize,
    pub height: usize,
    pub pixels: Vec<Vec<Pixel>>,
}

/// A frame is well formed when its pixel grid really has `height` rows of
/// `width` pixels each.
pub open spec fn frame_wf(f: Frame) -> bool {
    &&& f.pixels@.len() == f.height
    &&& forall|y: int| 0 <= y < f.height ==> (#[trigger] f.pixels@[y])@.len() == f.width
}

/// A frame sequence is well formed when every frame is well formed and all
/// frames share the first frame's dimensions.
pub open spec fn frames_wf(frames: Seq<Frame>) -> bool {
    forall|i: int|
        0 <= i < frames.len() ==> {
            &&& frame_wf(#[trigger] frames[i])
            &&& frames[i].width == frames[0].width
            &&& frames[i].height == frames[0].height
        }
}

/// The pixel at `(x, y)` of a row-major RGBA byte buffer of row length
/// `width`, red first within each 4-byte group.
pub open spec fn pixel_at(bytes: Seq<u8>, width: int, x: int, y: int) -> Pixel {
    Pixel {
        r: bytes[4 * (y * width + x)],
        g: bytes[4 * (y * width + x) + 1],
        b: bytes[4 * (y * width + x) + 2],
        a: bytes[4 * (y * width + x) + 3],
    }
}

/// Builds a frame from a row-major RGBA byte buffer, 4 bytes per pixel.
pub fn frame_from_bytes(width: usize, height: usize, bytes: &Vec<u8>) -> (f: Frame)
    requires
        bytes@.len() == 4 * (width * height),
    ensures
        f.width == width,
        f.height == height,
        frame_wf(f),
        forall|y: int, x: int|
            0 <= y < height && 0 <= x < width ==> #[trigger] f.pixels@[y]@[x] == pixel_at(
                bytes@,
                width as int,
                x,
                y,
            ),
{
    let total: usize = bytes.len();
    assert(total == 4 * (width * height) && 4 * (width * height) <= usize::MAX);
    let mut pixels: Vec<Vec<Pixel>> = Vec::new();
    for y in 0..height
        invariant
            bytes@.len() == 4 * (width * height),
            4 * (width * height) <= usize::MAX,
            pixels@.len() == y,
            forall|yy: int| 0 <= yy < y ==> (#[trigger] pixels@[yy])@.len() == width,
            forall|yy: int, x: int|
                0 <= yy < y && 0 <= x < width ==> #[trigger] pixels@[yy]@[x] == pixel_at(
                    bytes@,
                    width as int,
                    x,
                    yy,
                ),
    {
        let mut row: Vec<Pixel> = Vec::new();
        for x in 0..width
            invariant
                bytes@.len() == 4 * (width * height),
                4 * (width * height) <= usize::MAX,
                y < height,
                row@.len() == x,
                forall|xx: int|
                    0 <= xx < x ==> row@[xx] == pixel_at(bytes@, width as int, xx, y as int),
        {
            proof {
                assert(y * width + x < width * height) by (nonlinear_arith)
                    requires
                        x < width,
                        y < height,
                ;
            }
            let base = 4 * (y * width + x);
            let p = Pixel { r: bytes[base], g: bytes[base + 1], b: bytes[base + 2], a: bytes[base + 3] };
            row.push(p);
        }
        pixels.push(row);
    }
    Frame { width, height, pixels }
}

} // verus!
