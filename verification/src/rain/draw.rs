//! How the glyphs of a drop are styled, from the head (position 0) to the
//! tail.

use vstd::prelude::*;
use crate::rain::gradient;
use crate::rain::rain_drop::RainDropStyle;
use crate::style::{Attribute, Color};

verus! {

pub open spec fn style_at(style: RainDropStyle, pos: int) -> Attribute {
    match style {
        RainDropStyle::Front => Attribute::Bold,
        RainDropStyle::Middle => if pos <= 4 {
            Attribute::Bold
        } else {
            Attribute::NormalIntensity
        },
        RainDropStyle::Back => Attribute::Bold,
        _ => Attribute::NormalIntensity,
    }
}

/// Green share of a glyph whose fading has the weight `weight`: the weight
/// is taken modulo 65536 and kept inside `10..=256`; 256 counts as none.
pub open spec fn fade(weight: int) -> int {
    let w = weight % 0x1_0000;
    if w >= 256 {
        255
    } else if w < 10 {
        245
    } else {
        255 - w
    }
}

/// The gradient that the drops in the back are coloured with holds a colour
/// for the position `pos`.
pub open spec fn has_back_color(gradients: Seq<Vec<gradient::Color>>, pos: int) -> bool {
    gradients.len() > 2 && 0 <= pos < gradients[2]@.len()
}

pub open spec fn color_at(style: RainDropStyle, pos: int, gradients: Seq<Vec<gradient::Color>>) -> Color {
    match style {
        RainDropStyle::Gradient => if pos == 0 {
            Color::White
        } else {
            Color::Rgb { r: 0, g: fade((pos % 0x1_0000) * 12) as u8, b: 0 }
        },
        RainDropStyle::Front => if pos == 0 {
            Color::White
        } else {
            Color::Rgb { r: 0, g: fade(pos * pos) as u8, b: 0 }
        },
        RainDropStyle::Back => Color::Rgb {
            r: gradients[2]@[pos].r,
            g: gradients[2]@[pos].g,
            b: gradients[2]@[pos].b,
        },
        _ => Color::DarkGrey,
    }
}

pub fn pick_style(vw_style: &RainDropStyle, pos: usize) -> (attr: Attribute)
    ensures
        attr == style_at(*vw_style, pos as int),
{
    match vw_style {
        RainDropStyle::Front => Attribute::Bold,
        RainDropStyle::Middle => if pos <= 4 {
            Attribute::Bold
        } else {
            Attribute::NormalIntensity
        },
        RainDropStyle::Back => Attribute::Bold,
        _ => Attribute::NormalIntensity,
    }
}

fn faded(weight: u64) -> (g: u8)
    ensures
        g == fade(weight as int),
{
    let w = weight % 0x1_0000;
    if w >= 256 {
        255
    } else if w < 10 {
        245
    } else {
        (255 - w) as u8
    }
}

pub fn pick_color(vw_style: &RainDropStyle, pos: usize, gradients: &[Vec<gradient::Color>]) -> (color: Color)
    requires
        *vw_style == RainDropStyle::Back ==> has_back_color(gradients@, pos as int),
    ensures
        color == color_at(*vw_style, pos as int, gradients@),
{
    match vw_style {
        RainDropStyle::Gradient => if pos == 0 {
            Color::White
        } else {
            let p = (pos % 0x1_0000) as u64;
            Color::Rgb { r: 0, g: faded(p * 12), b: 0 }
        },
        RainDropStyle::Front => if pos == 0 {
            Color::White
        } else {
            let p = (pos % 0x1_0000) as u64;
            proof {
                lemma_square_mod(pos as int);
            }
            assert(p * p < 0x1_0000_0000) by (nonlinear_arith)
                requires 0 <= p < 0x1_0000;
            Color::Rgb { r: 0, g: faded(p * p), b: 0 }
        },
        RainDropStyle::Back => {
            let color = gradients[2][pos];
            Color::Rgb { r: color.r, g: color.g, b: color.b }
        },
        _ => Color::DarkGrey,
    }
}

proof fn lemma_square_mod(pos: int)
    requires
        0 <= pos,
    ensures
        ((pos % 0x1_0000) * (pos % 0x1_0000)) % 0x1_0000 == (pos * pos) % 0x1_0000,
{
    vstd::arithmetic::div_mod::lemma_mul_mod_noop_general(pos, pos, 0x1_0000);
}

} // verus!
