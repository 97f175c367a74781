use vstd::prelude::*;

use crate::sample::sample_through;

verus! {

/// A plain three-channel color value.  It carries no behavior of its own:
/// drawing duplicates it freely, one copy per emitted pixel-set call.
#[derive(Clone, Copy, Debug, PartialEq, Eq, Structural)]
pub struct Color {
    pub r: u8,
    pub g: u8,
    pub b: u8,
}

impl Color {
    /// A color from three 0-255 channel values.
    pub fn rgb(r: u8, g: u8, b: u8) -> (c: Color)
        ensures
            c == (Color { r, g, b }),
    {
        Color { r, g, b }
    }
}

/// A color whose three channels are drawn uniformly from 0..=255.
pub fn random_color() -> Color {
    let r = sample_through(0, 255);
    let g = sample_through(0, 255);
    let b = sample_through(0, 255);
    Color { r: r as u8, g: g as u8, b: b as u8 }
}

} // verus!
