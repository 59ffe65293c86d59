pub mod rng;
pub mod block;
pub mod component;
pub mod garbage;
pub mod combo_highlight;
pub mod cursor;
pub mod grid;
pub mod grid_blocks;
pub mod grid_garbage;
pub mod garbage_update;
pub mod grid_ai;
pub mod adaptors;
pub mod gridable;
pub mod grid_update;
pub mod versus;
