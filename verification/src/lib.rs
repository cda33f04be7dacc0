//! A character-mode display driver: colour attributes, the character grid
//! and the cursor-tracking writer that turns bytes into cell stores.

pub mod buffer;
pub mod color;
pub mod screen;
