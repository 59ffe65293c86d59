pub mod input;
pub mod texture;
pub mod ui;
