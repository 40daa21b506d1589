//! The one decision the window runner takes on its own: a resized drawing
//! surface keeps the new size, clamped to a minimum of one pixel in each
//! dimension.

use vstd::prelude::*;

verus! {

/// Clamp a requested surface size to at least 1 x 1 pixels.
pub fn clamp_surface_size(width: u32, height: u32) -> (size: (u32, u32))
    ensures
        size.0 == if width == 0 { 1u32 } else { width },
        size.1 == if height == 0 { 1u32 } else { height },
        size.0 >= 1,
        size.1 >= 1,
{
    let w = if width == 0 { 1 } else { width };
    let h = if height == 0 { 1 } else { height };
    (w, h)
}

} // verus!
