//! Colors of three 8-bit channels.

use vstd::prelude::*;
use crate::rng::random_u8;

verus! {

/// A color with a red, a green and a blue channel, and no alpha.
#[derive(Clone, Copy, Debug, PartialEq, Eq, Structural)]
pub struct Color {
    pub r: u8,
    pub g: u8,
    pub b: u8,
}

impl View for Color {
    type V = (u8, u8, u8);

    /// The channels in the order red, green, blue.
    open spec fn view(&self) -> (u8, u8, u8) {
        (self.r, self.g, self.b)
    }
}

/// Samples a color: each channel is drawn on its own from the whole range of
/// a byte, red first, then green, then blue.
///
/// Every color can come back, so nothing is promised of the result.
pub fn random_color() -> Color {
    let r: u8 = random_u8(0, u8::MAX);
    let g: u8 = random_u8(0, u8::MAX);
    let b: u8 = random_u8(0, u8::MAX);
    Color { r, g, b }
}

} // verus!
