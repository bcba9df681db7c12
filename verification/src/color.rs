//! Packed pixel colors in the display's native encoding.

use vstd::prelude::*;

verus! {

/// A packed pixel value: 5 bits of red, 6 of green, 5 of blue, as the
/// target display expects them. Immutable once constructed.
#[derive(Clone, Copy, PartialEq, Eq, Structural, Debug)]
pub struct Color {
    pub rgb565: u16,
}

/// The packed encoding of an 8-bit-per-channel color: each channel keeps
/// its top bits and moves to its field of the 16-bit word.
pub open spec fn rgb565_v(r: int, g: int, b: int) -> int {
    (r / 8) * 2048 + (g / 4) * 32 + b / 8
}

impl Color {
    /// Pack 8-bit red, green and blue components into a pixel value.
    pub fn from_rgb(r: u8, g: u8, b: u8) -> (c: Color)
        ensures
            c.rgb565 as int == rgb565_v(r as int, g as int, b as int),
    {
        let hi: u16 = (r as u16 / 8) * 2048;
        let mid: u16 = (g as u16 / 4) * 32;
        let lo: u16 = b as u16 / 8;
        Color { rgb565: hi + mid + lo }
    }
}

} // verus!
