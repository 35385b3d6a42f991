//! Packed RGBA color values, one byte per channel.

use vstd::prelude::*;

verus! {

/// A packed RGBA color. Channel order in memory-facing byte streams is
/// r, g, b, a (see `Renderer::rgba_bytes`).
#[derive(Clone, Copy, Debug, PartialEq, Eq, Structural)]
pub struct Color {
    pub r: u8,
    pub g: u8,
    pub b: u8,
    pub a: u8,
}

/// Relies on rand::random: draws a value of any type that the standard
/// distribution covers; nothing is promised of the outcome.
pub assume_specification<T>[ rand::random::<T> ]() -> (r: T)
    where
        rand::distributions::Standard: rand::distributions::Distribution<T>,
;

impl Color {
    /// An opaque color from red, green and blue channels; alpha is 255.
    pub fn rgb(r: u8, g: u8, b: u8) -> (c: Color)
        ensures
            c == (Color { r, g, b, a: 255u8 }),
    {
        Color { r, g, b, a: 255 }
    }

    /// A color from all four channels.
    pub fn rgba(r: u8, g: u8, b: u8, a: u8) -> (c: Color)
        ensures
            c == (Color { r, g, b, a }),
    {
        Color { r, g, b, a }
    }

    /// Opaque white.
    pub fn white() -> (c: Color)
        ensures
            c == (Color { r: 255u8, g: 255u8, b: 255u8, a: 255u8 }),
    {
        Color::rgb(255, 255, 255)
    }

    /// Opaque black.
    pub fn black() -> (c: Color)
        ensures
            c == (Color { r: 0u8, g: 0u8, b: 0u8, a: 255u8 }),
    {
        Color::rgb(0, 0, 0)
    }

    /// An opaque color with random channels.
    pub fn random() -> (c: Color)
        ensures
            c.a == 255,
    {
        let r: u8 = rand::random();
        let g: u8 = rand::random();
        let b: u8 = rand::random();
        Color::rgb(r, g, b)
    }

    /// The r, g and b channels scaled by the intensity `num / den`, each
    /// product truncated to a byte; alpha is kept. Intensities at most 1
    /// (`num <= den`) always stay within a byte, so no truncation occurs.
    pub fn scaled(self, num: u32, den: u32) -> (c: Color)
        requires
            den > 0,
        ensures
            c.r == (self.r * num / (den as int)) as u8,
            c.g == (self.g * num / (den as int)) as u8,
            c.b == (self.b * num / (den as int)) as u8,
            c.a == self.a,
    {
        let r = scale_channel(self.r, num, den);
        let g = scale_channel(self.g, num, den);
        let b = scale_channel(self.b, num, den);
        Color { r, g, b, a: self.a }
    }
}

/// One channel scaled by `num / den` and truncated to a byte.
fn scale_channel(c: u8, num: u32, den: u32) -> (r: u8)
    requires
        den > 0,
    ensures
        r == (c * num / (den as int)) as u8,
{
    proof {
        assert((c as int) * (num as int) <= 255 * 0xffff_ffff) by (nonlinear_arith)
            requires
                c <= 255,
                num <= 0xffff_ffffu32,
        ;
    }
    #[verifier::truncate]
    let r = (c as u64 * num as u64 / den as u64) as u8;
    r
}

impl Default for Color {
    /// The default color is opaque white.
    fn default() -> (c: Self)
        ensures
            c == (Color { r: 255u8, g: 255u8, b: 255u8, a: 255u8 }),
    {
        Color::white()
    }
}

} // verus!
