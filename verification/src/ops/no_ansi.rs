//! The platform console-attribute renderer surface.
//!
//! On platforms with an attribute-addressable console, an image is shown by
//! pre-filling the drawing region with half-block glyphs and setting each
//! cell's attribute nibbles from the colour table. This platform has no such
//! console, so the renderer is a no-op — producing no output is the correct
//! behaviour here, not a failure. The attribute arithmetic is kept, verified,
//! for the collaborator that drives a console.

use vstd::prelude::*;
use crate::pixels::{Rgb, PixelBuffer};

verus! {

/// A console cell attribute word: the high byte of `base` kept, the low
/// nibbles set to the matched palette indices (background above foreground).
pub fn console_cell_attribute(base: u16, upper_clr: u16, lower_clr: u16) -> (r: u16)
    requires
        upper_clr < 16,
        lower_clr < 16,
    ensures
        r == (base & 0xFF00) | (lower_clr << 4) | upper_clr,
{
    (base & 0xFF00) | (lower_clr << 4) | upper_clr
}

/// One palette entry of a console colour table, whose 32-bit entries hold
/// red in the low byte, then green, then blue.
pub fn rgb_from_console_colour(cr: u32) -> (r: Rgb)
    ensures
        r.r == cr & 0xFF,
        r.g == (cr & 0xFF00) >> 8,
        r.b == (cr & 0xFF0000) >> 16,
{
    proof {
        assert((cr & 0xFF) <= 0xFF && ((cr & 0xFF00) >> 8) <= 0xFF && ((cr & 0xFF0000) >> 16)
            <= 0xFF) by (bit_vector);
    }
    Rgb { r: (cr & 0xFF) as u8, g: ((cr & 0xFF00) >> 8) as u8, b: ((cr & 0xFF0000) >> 16) as u8 }
}

/// Display the specified image in the default console through the platform's
/// console-attribute interface.
///
/// Or, actually, don't: this platform has no such interface, and the correct
/// behaviour of this renderer here is to produce no output at all.
pub fn write_no_ansi(_img: &PixelBuffer) {
}

} // verus!
