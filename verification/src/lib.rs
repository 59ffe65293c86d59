//! Game logic of a Tetris-Attack style puzzle game: the block grid, its
//! block and garbage state machines, the cursor and its computer player,
//! combo bookkeeping and input frame counting.

pub mod helpers;
pub mod scripts;
pub mod engine;
pub mod components;
pub mod block_states;
