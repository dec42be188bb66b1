//! Animation engine of a terminal effect in which lines of text fall, rise
//! or wind along a spiral, one character per frame.
pub mod color;
pub mod ring;
pub mod column;
pub mod matrix;
pub mod render;
