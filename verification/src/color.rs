//! Flat RGBA colours.

use vstd::prelude::*;

verus! {

/// An opaque-or-translucent colour with 8 bits per channel.
#[derive(Clone, Copy, Debug, PartialEq, Eq, Structural)]
pub struct Color {
    pub r: u8,
    pub g: u8,
    pub b: u8,
    pub a: u8,
}

impl Color {
    pub fn new(r: u8, g: u8, b: u8, a: u8) -> (color: Color)
        ensures
            color == (Color { r, g, b, a }),
    {
        Color { r, g, b, a }
    }
}

/// The colour reported for a ray that meets no sphere.
pub open spec fn background() -> Color {
    Color { r: 4, g: 12, b: 36, a: 255 }
}

/// Fully opaque black, the colour of a fresh frame.
pub open spec fn black() -> Color {
    Color { r: 0, g: 0, b: 0, a: 255 }
}

} // verus!
