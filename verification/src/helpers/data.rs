use vstd::prelude::*;

verus! {

/// block and garbage hang time
pub const HANG_TIME: u32 = 40;

/// block and garbage clear time
pub const CLEAR_TIME: u32 = 40;

/// amount of frames it takes to swap a block
pub const SWAP_TIME: u32 = 5;

/// amount of frames it takes to land a block, multiples of 3
pub const LAND_TIME: u32 = 24;

/// frame time until the push_counter gets reset
pub const PUSH_TIME: u32 = 100;

/// pixel size of each sprite in the texture atlas
pub const ATLAS_TILE: u32 = 32;

/// vframe position of a white texture, can be used as a rectangle replacement
pub const ATLAS_FILL: u32 = 0;

/// vframe position of the cursor texture
pub const ATLAS_CURSOR: u32 = 1;

/// vframe position of the one dimensional garbage texture
pub const ATLAS_GARBAGE_1D: u32 = 9;

/// vframe position of the two dimensional garbage texture
pub const ATLAS_GARBAGE_2D: u32 = 10;

/// vframe position of the digit glyphs
pub const ATLAS_NUMBERS: u32 = 11;

/// vframe position of the letter glyphs
pub const ATLAS_ALPHABET: u32 = 12;

/// block width size of the grid
pub const GRID_WIDTH: usize = 6;

/// block height size of the grid
pub const GRID_HEIGHT: usize = 12;

/// block width * height size of the grid
pub const GRID_TOTAL: usize = 72;

} // verus!
