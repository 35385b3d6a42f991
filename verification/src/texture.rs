//! A decoded image held as a flat array of colors, sampled by normalized
//! UV coordinates.
//!
//! UV coordinates are fixed-point fractions of the image extent: the value
//! [`UV_ONE`] stands for 1.0, so a coordinate `u` addresses the texel column
//! `u * width / UV_ONE`. Coordinates at or beyond 1.0 clamp to the last
//! texel, so sampling is total on every well-formed texture.

use vstd::prelude::*;

use crate::color::Color;
use crate::math::Vec2u;

verus! {

/// The fixed-point UV coordinate standing for 1.0: coordinates are
/// interpreted as fractions with this denominator.
pub const UV_ONE: u32 = 65536;

/// Why a pixel array could not become a texture.
#[derive(Clone, Copy, Debug, PartialEq, Eq, Structural)]
pub enum TextureError {
    /// The width or the height is zero.
    EmptyImage,
    /// The pixel count `width * height` is not addressable.
    TooLarge,
    /// The byte array does not hold exactly four bytes per pixel.
    WrongLength,
}

/// The texel a fixed-point coordinate addresses along an axis of `extent`
/// texels: the scaled-down coordinate, clamped to the last texel.
pub open spec fn uv_to_texel(c: int, extent: int) -> int {
    vstd::math::min(c * extent / (UV_ONE as int), extent - 1)
}

/// An immutable image: a flat row-major pixel array with its dimensions,
/// with (0, 0) the top-left texel.
pub struct Texture {
    pub pixels: Vec<Color>,
    pub width: u32,
    pub height: u32,
}

impl Texture {
    /// Well-formed: at least one texel each way, and exactly
    /// `width * height` pixels.
    pub open spec fn wf(&self) -> bool {
        &&& 1 <= self.width
        &&& 1 <= self.height
        &&& self.width * self.height <= u32::MAX
        &&& self.pixels@.len() == self.width * self.height
    }

    /// A texture from dimensions and raw bytes, four bytes r, g, b, a per
    /// pixel in row-major order. Fails exactly when a dimension is zero,
    /// the pixel count is not addressable, or the byte count is wrong.
    pub fn from_rgba(width: u32, height: u32, bytes: &Vec<u8>) -> (r: Result<Texture, TextureError>)
        ensures
            width == 0 || height == 0 ==> r == Result::<Texture, TextureError>::Err(
                TextureError::EmptyImage,
            ),
            width > 0 && height > 0 && width * height > u32::MAX ==> r == Result::<
                Texture,
                TextureError,
            >::Err(TextureError::TooLarge),
            width > 0 && height > 0 && width * height <= u32::MAX && bytes@.len() != 4 * (width * height) ==> r == Result::<Texture, TextureError>::Err(TextureError::WrongLength),
            width > 0 && height > 0 && width * height <= u32::MAX && bytes@.len() == 4 * (width * height) ==> {
                &&& r is Ok
                &&& r->Ok_0.wf()
                &&& r->Ok_0.width == width
                &&& r->Ok_0.height == height
                &&& forall|i: int|
                    0 <= i < width * height ==> r->Ok_0.pixels@[i] == (Color {
                        r: bytes@[4 * i],
                        g: bytes@[4 * i + 1],
                        b: bytes@[4 * i + 2],
                        a: bytes@[4 * i + 3],
                    })
            },
    {
        if width == 0 || height == 0 {
            return Err(TextureError::EmptyImage);
        }
        proof {
            assert(width as int * height as int <= 0xffffffffffffffffu64) by (nonlinear_arith)
                requires
                    width < 0x100000000,
                    height < 0x100000000,
            ;
        }
        let count = width as u64 * height as u64;
        if count > u32::MAX as u64 {
            return Err(TextureError::TooLarge);
        }
        let blen = bytes.len();
        proof {
            assert(count == width * height);
            assert(blen == bytes@.len());
        }
        if blen as u64 != 4 * count {
            proof {
                assert(bytes@.len() != 4 * (width * height));
            }
            return Err(TextureError::WrongLength);
        }
        let n = count as usize;
        proof {
            assert(bytes@.len() == 4 * (width * height));
        }
        let mut pixels: Vec<Color> = Vec::new();
        let mut i: usize = 0;
        while i < n
            invariant
                i <= n,
                n == width * height,
                bytes@.len() == 4 * n,
                4 * n <= usize::MAX,
                pixels@.len() == i,
                forall|k: int|
                    0 <= k < i ==> pixels@[k] == (Color {
                        r: bytes@[4 * k],
                        g: bytes@[4 * k + 1],
                        b: bytes@[4 * k + 2],
                        a: bytes@[4 * k + 3],
                    }),
            decreases n - i,
        {
            let c = Color {
                r: bytes[4 * i],
                g: bytes[4 * i + 1],
                b: bytes[4 * i + 2],
                a: bytes[4 * i + 3],
            };
            pixels.push(c);
            i = i + 1;
        }
        Ok(Texture { pixels, width, height })
    }

    /// The color at normalized coordinate `uv`: the texel whose cell the
    /// coordinate falls in, with coordinates at or past 1.0 clamped to the
    /// image edge. (0, 0) samples the top-left texel.
    pub fn get_color(&self, uv: &Vec2u) -> (r: Color)
        requires
            self.wf(),
        ensures
            r == self.pixels@[uv_to_texel(uv.y as int, self.height as int) * self.width
                + uv_to_texel(uv.x as int, self.width as int)],
    {
        proof {
            assert(uv.x as int * self.width as int <= 0xffffffffffffffffu64 && uv.y as int
                * self.height as int <= 0xffffffffffffffffu64) by (nonlinear_arith)
                requires
                    uv.x < 0x100000000,
                    uv.y < 0x100000000,
                    self.width < 0x100000000,
                    self.height < 0x100000000,
            ;
        }
        let tx64 = uv.x as u64 * self.width as u64 / UV_ONE as u64;
        let x: u64 = if tx64 > self.width as u64 - 1 {
            self.width as u64 - 1
        } else {
            tx64
        };
        let ty64 = uv.y as u64 * self.height as u64 / UV_ONE as u64;
        let y: u64 = if ty64 > self.height as u64 - 1 {
            self.height as u64 - 1
        } else {
            ty64
        };
        proof {
            assert(x == uv_to_texel(uv.x as int, self.width as int));
            assert(y == uv_to_texel(uv.y as int, self.height as int));
            assert(0 <= (y as int) * self.width + x < self.width * self.height)
                by (nonlinear_arith)
                requires
                    0 <= x < self.width,
                    0 <= y < self.height,
            ;
        }
        let index = (y * self.width as u64 + x) as usize;
        self.pixels[index]
    }
}

} // verus!

