//! Renders a raster image as terminal text.
//!
//! The pipeline: guess the encoded format of an image file ([`ops::guess_format`]),
//! plan the output size against the terminal's cell grid
//! ([`ops::image_resized_size`]), approximate each pixel within a fixed palette
//! ([`util::closest_colour`], [`ops::create_colourtable`]), and emit the result
//! through one of several terminal encodings ([`ops::write_ansi`],
//! [`ops::write_ansi_truecolor`], [`ops::write_ascii`]).
//!
//! Decoding the image bitstream, argument parsing, terminal-size detection and
//! file I/O are collaborators outside this library: callers decode into a
//! [`pixels::PixelBuffer`] of plain byte samples and hand that in.

mod error;
mod options;
pub mod ops;
pub mod pixels;
pub mod util;

pub use error::Error;
pub use options::{AnsiOutputFormat, Options};
