//! How the glyphs of a worm are coloured, from the head (position 0) to the
//! tail.

use vstd::prelude::*;
use crate::matrix::charworm::VerticalWormStyle;
use crate::style::Color;

verus! {

/// The look of a glyph: its colour, and whether it is bold.
#[derive(Debug, Clone, Copy, PartialEq, Eq, Structural)]
pub struct GlyphStyle {
    pub color: Color,
    pub bold: bool,
}

pub open spec fn plain(color: Color) -> GlyphStyle {
    GlyphStyle { color, bold: false }
}

/// The green of a gradient at position `pos`: it loses 12 with each
/// position until none is left.
pub open spec fn gradient_green(pos: int) -> int {
    let fade = ((pos % 0x1_0000) * 12) % 0x1_0000;
    if fade > 255 {
        0
    } else {
        255 - fade
    }
}

pub open spec fn worm_style_at(vw_style: VerticalWormStyle, pos: int) -> GlyphStyle {
    match vw_style {
        VerticalWormStyle::Front => if pos == 0 {
            GlyphStyle { color: Color::White, bold: true }
        } else if pos == 1 {
            plain(Color::White)
        } else if pos <= 4 {
            plain(Color::Green)
        } else if pos <= 7 {
            plain(Color::DarkGreen)
        } else if pos <= 12 {
            plain(Color::Grey)
        } else {
            plain(Color::DarkGrey)
        },
        VerticalWormStyle::Middle => if pos == 0 {
            plain(Color::White)
        } else if pos <= 3 {
            plain(Color::Green)
        } else if pos <= 5 {
            plain(Color::DarkGreen)
        } else if pos <= 10 {
            plain(Color::Grey)
        } else {
            plain(Color::DarkGrey)
        },
        VerticalWormStyle::Back => if pos == 0 {
            plain(Color::Green)
        } else if pos <= 3 {
            plain(Color::DarkGreen)
        } else if pos <= 5 {
            plain(Color::Grey)
        } else {
            plain(Color::DarkGrey)
        },
        VerticalWormStyle::Fading => if pos <= 4 {
            plain(Color::Grey)
        } else {
            plain(Color::DarkGrey)
        },
        VerticalWormStyle::Gradient => if pos == 0 {
            GlyphStyle { color: Color::White, bold: true }
        } else {
            plain(Color::Rgb { r: 0, g: gradient_green(pos) as u8, b: 0 })
        },
    }
}

fn unbold(color: Color) -> (style: GlyphStyle)
    ensures
        style == plain(color),
{
    GlyphStyle { color, bold: false }
}

/// The look of the glyph at position `pos` of a worm of the given style.
pub fn pick_style(vw_style: &VerticalWormStyle, pos: usize) -> (style: GlyphStyle)
    ensures
        style == worm_style_at(*vw_style, pos as int),
{
    match vw_style {
        VerticalWormStyle::Front => if pos == 0 {
            GlyphStyle { color: Color::White, bold: true }
        } else if pos == 1 {
            unbold(Color::White)
        } else if pos <= 4 {
            unbold(Color::Green)
        } else if pos <= 7 {
            unbold(Color::DarkGreen)
        } else if pos <= 12 {
            unbold(Color::Grey)
        } else {
            unbold(Color::DarkGrey)
        },
        VerticalWormStyle::Middle => if pos == 0 {
            unbold(Color::White)
        } else if pos <= 3 {
            unbold(Color::Green)
        } else if pos <= 5 {
            unbold(Color::DarkGreen)
        } else if pos <= 10 {
            unbold(Color::Grey)
        } else {
            unbold(Color::DarkGrey)
        },
        VerticalWormStyle::Back => if pos == 0 {
            unbold(Color::Green)
        } else if pos <= 3 {
            unbold(Color::DarkGreen)
        } else if pos <= 5 {
            unbold(Color::Grey)
        } else {
            unbold(Color::DarkGrey)
        },
        VerticalWormStyle::Fading => if pos <= 4 {
            unbold(Color::Grey)
        } else {
            unbold(Color::DarkGrey)
        },
        VerticalWormStyle::Gradient => if pos == 0 {
            GlyphStyle { color: Color::White, bold: true }
        } else {
            let fade = ((pos % 0x1_0000) as u64 * 12) % 0x1_0000;
            let green: u8 = if fade > 255 {
                0
            } else {
                (255 - fade) as u8
            };
            unbold(Color::Rgb { r: 0, g: green, b: 0 })
        },
    }
}

} // verus!
