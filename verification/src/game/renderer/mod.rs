//! What the library prepares for drawing.

pub mod chunk;
pub mod ui;
