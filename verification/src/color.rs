//! RGBA color cells for the pixel raster.

use vstd::prelude::*;

verus! {

/// One RGBA color value. A canvas cell holds either the background color or
/// the fern color; the renderer never blends, so plain equality is all the
/// contracts need.
#[derive(Clone, Copy, PartialEq, Eq, Structural, Debug)]
pub struct Color {
    pub r: u8,
    pub g: u8,
    pub b: u8,
    pub a: u8,
}

impl Color {
    /// The fully transparent black that a freshly constructed canvas holds
    /// before its first background fill.
    pub open spec fn blank_spec() -> Color {
        Color { r: 0, g: 0, b: 0, a: 0 }
    }

    pub fn blank() -> (c: Color)
        ensures
            c == Color::blank_spec(),
    {
        Color { r: 0, g: 0, b: 0, a: 0 }
    }
}

} // verus!
