//! Terminal screen savers rendered into a grid of character cells.
//!
//! Every effect paints the frame it wants to show into a [`buffer::Buffer`],
//! and only the cells that differ from the frame shown before are handed out
//! for drawing. The render loop that draws them lives outside this library;
//! [`render_loop`] holds what it decides.

pub mod blank;
pub mod buffer;
pub mod canvas;
pub mod check;
pub mod crab;
pub mod cube;
pub mod donut;
pub mod effect;
pub mod glyphs;
pub mod life;
pub mod matrix;
pub mod maze;
pub mod order;
pub mod rain;
pub mod random;
pub mod render_loop;
pub mod style;
