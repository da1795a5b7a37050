//! The console's pixel surface: the geometry of a raw 32-bit-per-pixel framebuffer (8 bits per
//! channel, blue-green-red-padding). Whoever holds the memory writes a pixel at the offset
//! `pixel_offset` gives.

use vstd::prelude::*;

verus! {

/// A 32-bit-per-pixel surface `width` x `height` pixels, `stride` bytes per row (which may exceed
/// `width * 4` if the source pads rows).
#[derive(Clone, Copy, Debug, PartialEq, Eq, Structural)]
pub struct Framebuffer {
    pub width: usize,
    pub height: usize,
    pub stride: usize,
}

impl Framebuffer {
    /// The byte offset of the pixel at (`x`, `y`) within the framebuffer's memory.
    pub fn pixel_offset(&self, x: usize, y: usize) -> (off: usize)
        requires
            y * self.stride + x * 4 <= usize::MAX,
        ensures
            off == y * self.stride + x * 4,
    {
        assert(y * self.stride <= usize::MAX) by (nonlinear_arith)
            requires y * self.stride + x * 4 <= usize::MAX, x >= 0;
        y * self.stride + x * 4
    }
}

} // verus!
