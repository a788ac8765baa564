//! 8-bit RGBA colors: packing, unpacking and integer darkening.

use vstd::prelude::*;

verus! {

/// A factor of this many 256ths leaves a channel unchanged in `darkened`.
pub const DARKEN_FULL: u32 = 256;

/// A simple RGBA color structure for the raycaster.
#[derive(Clone, Copy, Debug)]
pub struct Color {
    /// Red channel (0-255)
    pub r: u8,
    /// Green channel (0-255)
    pub g: u8,
    /// Blue channel (0-255)
    pub b: u8,
    /// Alpha channel (0-255)
    pub a: u8,
}

impl Color {
    /// Creates a new color from raw RGBA components.
    pub fn new(r: u8, g: u8, b: u8, a: u8) -> (c: Color)
        ensures
            c.r == r,
            c.g == g,
            c.b == b,
            c.a == a,
    {
        Color { r, g, b, a }
    }

    /// Creates a color from a 24-bit hex integer (0xRRGGBB).
    /// Alpha is set to 255 (fully opaque).
    pub fn from_hex(hex: u32) -> (c: Color)
        ensures
            c.r == (hex >> 16) & 0xFF,
            c.g == (hex >> 8) & 0xFF,
            c.b == hex & 0xFF,
            c.a == 255,
    {
        proof {
            assert((hex >> 16) & 0xFF < 256 && (hex >> 8) & 0xFF < 256 && hex & 0xFF < 256)
                by (bit_vector);
        }
        Color {
            r: ((hex >> 16) & 0xFF) as u8,
            g: ((hex >> 8) & 0xFF) as u8,
            b: (hex & 0xFF) as u8,
            a: 255,
        }
    }

    /// Creates a color from a 32-bit hex integer with alpha (0xRRGGBBAA).
    pub fn from_hex_alpha(hex: u32) -> (c: Color)
        ensures
            c.r == (hex >> 24) & 0xFF,
            c.g == (hex >> 16) & 0xFF,
            c.b == (hex >> 8) & 0xFF,
            c.a == hex & 0xFF,
    {
        proof {
            assert((hex >> 24) & 0xFF < 256 && (hex >> 16) & 0xFF < 256 && (hex >> 8) & 0xFF
                < 256 && hex & 0xFF < 256) by (bit_vector);
        }
        Color {
            r: ((hex >> 24) & 0xFF) as u8,
            g: ((hex >> 16) & 0xFF) as u8,
            b: ((hex >> 8) & 0xFF) as u8,
            a: (hex & 0xFF) as u8,
        }
    }

    /// Returns the color as a `[u8; 4]` array in RGBA order, the layout of
    /// a byte-addressed framebuffer.
    pub fn to_array(&self) -> (arr: [u8; 4])
        ensures
            arr@ == seq![self.r, self.g, self.b, self.a],
    {
        [self.r, self.g, self.b, self.a]
    }

    /// One channel scaled by `factor` 256ths, rounded to nearest (half away
    /// from zero).
    pub open spec fn spec_darken_channel(ch: u8, factor: u32) -> int {
        (ch * factor + 128) / 256
    }

    /// Returns a new color with the RGB channels multiplied by
    /// `factor / 256`; `factor == DARKEN_FULL` is the identity and
    /// `factor == 0` gives black.  The alpha channel is preserved.
    pub fn darkened(&self, factor: u32) -> (c: Color)
        requires
            factor <= DARKEN_FULL,
        ensures
            c.r == Self::spec_darken_channel(self.r, factor),
            c.g == Self::spec_darken_channel(self.g, factor),
            c.b == Self::spec_darken_channel(self.b, factor),
            c.a == self.a,
            factor == DARKEN_FULL ==> c == *self,
            factor == 0 ==> c.r == 0 && c.g == 0 && c.b == 0 && c.a == self.a,
    {
        let c = Color {
            r: darken_channel(self.r, factor),
            g: darken_channel(self.g, factor),
            b: darken_channel(self.b, factor),
            a: self.a,
        };
        c
    }
}

/// Scales one 8-bit channel by `factor` 256ths with rounding.
fn darken_channel(ch: u8, factor: u32) -> (r: u8)
    requires
        factor <= 256,
    ensures
        r == Color::spec_darken_channel(ch, factor),
        factor == 256 ==> r == ch,
        factor == 0 ==> r == 0,
{
    proof {
        assert(ch * factor <= 255 * 256) by (nonlinear_arith)
            requires
                ch <= 255,
                factor <= 256,
        ;
        assert((ch * factor + 128) / 256 <= 255);
        assert(factor == 256 ==> (ch * factor + 128) / 256 == ch) by (nonlinear_arith);
    }
    (((ch as u32) * factor + 128) / 256) as u8
}

} // verus!
