//! The character display: cell coordinates, the cell buffer and the glyph
//! codes.

pub mod buffer;
pub mod charmaps;
pub mod init;
pub mod pixels;
pub mod wrapping;

use vstd::prelude::*;

verus! {

/// A coordinate in a character buffer.
pub type Pos = u16;

/// An extent of a character buffer.
pub type Size = u16;

/// A length in pixels.
pub type Pixels = usize;

/// How many glyphs the character set has.
pub const FONT_SIZE: Size = 256;

/// Bytes that a pixel takes in a texture: red, green, blue.
pub const BYTES_PER_PIXEL: usize = 3;

/// The width of a character cell in pixels.
pub const CHAR_CELL_WIDTH: Pixels = 8;

/// The height of a character cell in pixels.
pub const CHAR_CELL_HEIGHT: Pixels = 12;

} // verus!
