//! Digital rain: columns of glyphs that fall down the screen.

pub mod digital_rain;
pub mod draw;
pub mod gradient;
pub mod rain_drop;
pub mod rain_options;
