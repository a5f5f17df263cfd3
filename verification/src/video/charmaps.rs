//! The glyph codes of the character set.
//!
//! Small glyphs fill one cell. Large glyphs fill a square of four cells
//! and take four codes in a row: top left, top right, bottom left, bottom
//! right.

use vstd::prelude::*;

verus! {

/// The blank glyph.
pub const SPACE: u8 = 0x20;

/// First code of the printable characters.
pub const ASCII_START: u8 = 0x20;

/// A large blank.
pub const BIG_BLANK_START: u8 = 0x18;

/// First of the two small explosions.
pub const LIL_BOOM_START: u8 = 0x1c;

pub const LIL_BOOM_A1: u8 = LIL_BOOM_START;

pub const LIL_BOOM_A2: u8 = LIL_BOOM_START + 1;

/// First code of the maze walls. A wall glyph's offset from here is a
/// mask of the arms it has: 8 for the arm that points up, 4 for right,
/// 2 for down, 1 for left.
pub const MAZE_WALLS_START: u8 = 0x80;

/// Last code of the maze walls.
pub const MAZE_WALLS_END: u8 = 0x8f;

/// The junction without arms: open floor, no wall.
pub const MAZE_NONE: u8 = SPACE;

pub const MAZE_LEFT: u8 = MAZE_WALLS_START + 0x1;

pub const MAZE_BOTTOM: u8 = MAZE_WALLS_START + 0x2;

pub const MAZE_TOP_RIGHT: u8 = MAZE_WALLS_START + 0x3;

pub const MAZE_RIGHT: u8 = MAZE_WALLS_START + 0x4;

pub const MAZE_ACROSS: u8 = MAZE_WALLS_START + 0x5;

pub const MAZE_TOP_LEFT: u8 = MAZE_WALLS_START + 0x6;

pub const MAZE_TOP_T: u8 = MAZE_WALLS_START + 0x7;

pub const MAZE_TOP: u8 = MAZE_WALLS_START + 0x8;

pub const MAZE_BOTTOM_LEFT: u8 = MAZE_WALLS_START + 0x9;

pub const MAZE_DOWN: u8 = MAZE_WALLS_START + 0xa;

pub const MAZE_RIGHT_T: u8 = MAZE_WALLS_START + 0xb;

pub const MAZE_BOTTOM_RIGHT: u8 = MAZE_WALLS_START + 0xc;

pub const MAZE_BOTTOM_T: u8 = MAZE_WALLS_START + 0xd;

pub const MAZE_LEFT_T: u8 = MAZE_WALLS_START + 0xe;

pub const MAZE_CROSS: u8 = MAZE_WALLS_START + 0xf;

/// First code of the bullets, one glyph for each of eight directions.
pub const BULLETS_START: u8 = 0x90;

pub const BULLET_UP: u8 = BULLETS_START;

pub const BULLET_DOWN: u8 = BULLETS_START + 1;

pub const BULLET_LEFT: u8 = BULLETS_START + 2;

pub const BULLET_RIGHT: u8 = BULLETS_START + 3;

pub const BULLET_UP_LEFT: u8 = BULLETS_START + 4;

pub const BULLET_UP_RIGHT: u8 = BULLETS_START + 5;

pub const BULLET_DOWN_LEFT: u8 = BULLETS_START + 6;

pub const BULLET_DOWN_RIGHT: u8 = BULLETS_START + 7;

/// First code of the baby rats: four directions, two frames each.
pub const BRATS_START: u8 = 0x98;

pub const BRATS_UP_A1: u8 = BRATS_START;

pub const BRATS_UP_A2: u8 = BRATS_START + 1;

pub const BRATS_DOWN_A1: u8 = BRATS_START + 2;

pub const BRATS_DOWN_A2: u8 = BRATS_START + 3;

pub const BRATS_LEFT_A1: u8 = BRATS_START + 4;

pub const BRATS_LEFT_A2: u8 = BRATS_START + 5;

pub const BRATS_RIGHT_A1: u8 = BRATS_START + 6;

pub const BRATS_RIGHT_A2: u8 = BRATS_START + 7;

/// First code of the factories: two large frames.
pub const FACTORIES_START: u8 = 0xa0;

pub const FACTORY_A1: u8 = FACTORIES_START;

pub const FACTORY_A2: u8 = FACTORIES_START + 4;

/// First code of the large explosions: two large frames.
pub const BIG_BOOM_START: u8 = 0xa8;

pub const BIG_BOOM_A1: u8 = BIG_BOOM_START;

pub const BIG_BOOM_A2: u8 = BIG_BOOM_START + 4;

/// First code of the rats: four directions, two large frames each.
pub const RATS_START: u8 = 0xb0;

pub const RATS_UP_A1: u8 = RATS_START;

pub const RATS_UP_A2: u8 = RATS_START + 4;

pub const RATS_DOWN_A1: u8 = RATS_START + 8;

pub const RATS_DOWN_A2: u8 = RATS_START + 12;

pub const RATS_LEFT_A1: u8 = RATS_START + 16;

pub const RATS_LEFT_A2: u8 = RATS_START + 20;

pub const RATS_RIGHT_A1: u8 = RATS_START + 24;

pub const RATS_RIGHT_A2: u8 = RATS_START + 28;

/// First code of the player: four directions, three large frames each
/// (standing, and two of the stride).
pub const PLAYER_START: u8 = 0xd0;

pub const PLAYER_DOWN: u8 = PLAYER_START;

pub const PLAYER_UP: u8 = PLAYER_START + 12;

pub const PLAYER_LEFT: u8 = PLAYER_START + 24;

pub const PLAYER_RIGHT: u8 = PLAYER_START + 36;

} // verus!
