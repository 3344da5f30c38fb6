//! Plain-value pixel samples and the decoded image buffer the renderers
//! consume.
//!
//! The image codec collaborator decodes a file into row-major RGBA bytes;
//! callers wrap those bytes in a [`PixelBuffer`] before rendering.

use vstd::prelude::*;

verus! {

/// A 3-channel colour sample, as used by the palettes.
#[derive(Clone, Copy, Debug, PartialEq, Eq, Structural, Hash)]
pub struct Rgb {
    pub r: u8,
    pub g: u8,
    pub b: u8,
}

/// A 4-channel colour sample of a decoded image, alpha included.
#[derive(Clone, Copy, Debug, PartialEq, Eq, Structural, Hash)]
pub struct Rgba {
    pub r: u8,
    pub g: u8,
    pub b: u8,
    pub a: u8,
}

impl Rgba {
    /// The colour channels of this sample, alpha dropped.
    pub open spec fn spec_rgb(self) -> Rgb {
        Rgb { r: self.r, g: self.g, b: self.b }
    }

    /// Drop the alpha channel.
    pub fn to_rgb(&self) -> (c: Rgb)
        ensures
            c == self.spec_rgb(),
    {
        Rgb { r: self.r, g: self.g, b: self.b }
    }
}

/// A decoded image: `width * height` RGBA samples in row-major order,
/// top row first.
#[derive(Clone, Debug, PartialEq, Eq)]
pub struct PixelBuffer {
    pub width: u32,
    pub height: u32,
    pub pixels: Vec<Rgba>,
}

impl PixelBuffer {
    /// The buffer holds exactly one sample per coordinate.
    pub open spec fn wf(&self) -> bool {
        self.pixels@.len() == self.width * self.height
    }

    /// The sample at column `x` of row `y`.
    pub open spec fn spec_pixel(&self, x: int, y: int) -> Rgba {
        self.pixels@[y * self.width + x]
    }

    /// Wrap row-major samples; `None` when the count does not match the
    /// claimed dimensions.
    pub fn new(width: u32, height: u32, pixels: Vec<Rgba>) -> (r: Option<PixelBuffer>)
        ensures
            r is Some <==> pixels@.len() == width * height,
            r matches Some(buf) ==> buf == (PixelBuffer { width, height, pixels })
                && buf.wf(),
    {
        proof {
            assert(width * height <= u64::MAX) by (nonlinear_arith)
                requires
                    width <= u32::MAX,
                    height <= u32::MAX,
            ;
        }
        if pixels.len() as u64 == width as u64 * height as u64 {
            Some(PixelBuffer { width, height, pixels })
        } else {
            None
        }
    }

    /// The source dimensions as a `(width, height)` pair.
    pub fn dimensions(&self) -> (r: (u32, u32))
        ensures
            r == (self.width, self.height),
    {
        (self.width, self.height)
    }

    /// Read the sample at column `x` of row `y`.
    pub fn get_pixel(&self, x: u32, y: u32) -> (p: Rgba)
        requires
            self.wf(),
            x < self.width,
            y < self.height,
        ensures
            p == self.spec_pixel(x as int, y as int),
    {
        let n = self.pixels.len();
        proof {
            assert(y * self.width + x < self.width * self.height) by (nonlinear_arith)
                requires
                    x < self.width,
                    y < self.height,
            ;
        }
        self.pixels[y as usize * self.width as usize + x as usize]
    }
}

} // verus!
