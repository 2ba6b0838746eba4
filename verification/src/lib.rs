//! An interactive triangle editor core: scanline rasterization with
//! per-edge colour interpolation, barycentric hit-testing, and the
//! create/select/modify interaction state machine.
//!
//! Everything here works on plain pixel coordinates (integers, origin at the
//! bottom-left of the viewport) and byte-valued RGB colours.  The windowing
//! layer is expected to translate cursor events into these values and to blit
//! the pixel buffers this library produces.

pub mod bresenham;
pub mod color;
pub mod geometry;
pub mod overlay;
pub mod raster;
pub mod state;
pub mod store;
pub mod triangles;

use vstd::prelude::*;

verus! {

/// Flips a screen-space row (origin top-left) into a logical row
/// (origin bottom-left), clamped into `[0, height)` so that the result
/// always satisfies the vertex position invariant.
pub fn flip_y(screen_y: u32, height: u32) -> (r: u32)
    requires
        height > 0,
    ensures
        r < height,
        1 <= screen_y <= height ==> r == height - screen_y,
        screen_y == 0 ==> r == height - 1,
        screen_y > height ==> r == 0,
{
    if screen_y >= height {
        0
    } else if screen_y == 0 {
        height - 1
    } else {
        height - screen_y
    }
}

} // verus!
