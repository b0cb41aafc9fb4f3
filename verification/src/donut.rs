//! A turning torus: how its glyphs, once found, are coloured and put onto
//! the screen.
//!
//! Which glyph lies where is not decided here.

use vstd::prelude::*;
use crate::buffer::{lemma_position_in_range, Buffer, Cell};
use crate::style::{Attribute, Color};

verus! {

/// The twelve shades of the torus, from its dark side to its bright side.
pub open spec fn shade_of(k: int) -> Color {
    if 0 <= k < 4 {
        Color::Rgb { r: 213, g: 196, b: 161 }
    } else if k < 6 {
        Color::Rgb { r: 251, g: 241, b: 199 }
    } else if k == 6 {
        Color::Rgb { r: 69, g: 133, b: 136 }
    } else if k == 7 {
        Color::Rgb { r: 104, g: 157, b: 106 }
    } else if k == 8 {
        Color::Rgb { r: 152, g: 151, b: 26 }
    } else if k == 9 {
        Color::Rgb { r: 215, g: 153, b: 33 }
    } else if k == 10 {
        Color::Rgb { r: 214, g: 93, b: 14 }
    } else {
        Color::Rgb { r: 204, g: 36, b: 29 }
    }
}

/// The first place of `glyph` among the first `n` of `glyphs`, or `n` where
/// it is not among them.
pub open spec fn first_place(glyphs: Seq<char>, glyph: char, n: int) -> int
    decreases n,
{
    if n <= 0 {
        0
    } else if first_place(glyphs, glyph, n - 1) < n - 1 {
        first_place(glyphs, glyph, n - 1)
    } else if glyphs[n - 1] == glyph {
        n - 1
    } else {
        n
    }
}

/// The brightness that a glyph stands for: its first place among the
/// glyphs of the torus, or 0 where it is none of them.
pub open spec fn luminance_of(glyphs: Seq<char>, glyph: char) -> int {
    if first_place(glyphs, glyph, glyphs.len() as int) < glyphs.len() {
        first_place(glyphs, glyph, glyphs.len() as int)
    } else {
        0
    }
}

/// The cell that shows a glyph of the torus: in bold, in the shade of its
/// brightness.
pub open spec fn donut_cell(glyphs: Seq<char>, glyph: char) -> Cell {
    Cell { symbol: glyph, color: shade_of(luminance_of(glyphs, glyph) % 12), attr: Attribute::Bold }
}

/// The frame with each glyph of `output` that is not a space put onto it.
pub open spec fn painted(frame: Seq<Cell>, output: Seq<char>, glyphs: Seq<char>) -> Seq<Cell> {
    Seq::new(
        frame.len(),
        |i: int|
            if output[i] != ' ' {
                donut_cell(glyphs, output[i])
            } else {
                frame[i]
            },
    )
}

fn shade(k: usize) -> (color: Color)
    ensures
        color == shade_of(k as int),
{
    if k < 4 {
        Color::Rgb { r: 213, g: 196, b: 161 }
    } else if k < 6 {
        Color::Rgb { r: 251, g: 241, b: 199 }
    } else if k == 6 {
        Color::Rgb { r: 69, g: 133, b: 136 }
    } else if k == 7 {
        Color::Rgb { r: 104, g: 157, b: 106 }
    } else if k == 8 {
        Color::Rgb { r: 152, g: 151, b: 26 }
    } else if k == 9 {
        Color::Rgb { r: 215, g: 153, b: 33 }
    } else if k == 10 {
        Color::Rgb { r: 214, g: 93, b: 14 }
    } else {
        Color::Rgb { r: 204, g: 36, b: 29 }
    }
}

/// The brightness that a glyph stands for.
pub fn luminance(luminance_chars: &Vec<char>, glyph: char) -> (index: usize)
    ensures
        index == luminance_of(luminance_chars@, glyph),
{
    let mut i: usize = 0;
    while i < luminance_chars.len()
        invariant
            i <= luminance_chars@.len(),
            first_place(luminance_chars@, glyph, i as int) == i,
        decreases luminance_chars@.len() - i,
    {
        if luminance_chars[i] == glyph {
            proof {
                lemma_first_place_stays(luminance_chars@, glyph, i as int, luminance_chars@.len() as int);
            }
            return i;
        }
        i += 1;
    }
    0
}

/// Once a glyph is found, looking further does not change its place.
proof fn lemma_first_place_stays(glyphs: Seq<char>, glyph: char, at: int, n: int)
    requires
        0 <= at < n,
        first_place(glyphs, glyph, at) == at,
        glyphs[at] == glyph,
    ensures
        first_place(glyphs, glyph, n) == at,
    decreases n,
{
    if n > at + 1 {
        lemma_first_place_stays(glyphs, glyph, at, n - 1);
    }
}

/// Puts the glyphs of the torus onto the buffer: `output` holds, row by
/// row, the glyph of each cell, or a space where the torus is not seen.
pub fn paint_output(buffer: &mut Buffer, output: &Vec<char>, luminance_chars: &Vec<char>)
    requires
        old(buffer).wf(),
        output@.len() == old(buffer)@.len(),
    ensures
        final(buffer).wf(),
        final(buffer).width == old(buffer).width,
        final(buffer).height == old(buffer).height,
        final(buffer)@ == painted(old(buffer)@, output@, luminance_chars@),
{
    let n = output.len();
    let mut idx: usize = 0;
    while idx < n
        invariant
            idx <= n,
            n == output@.len(),
            n == buffer@.len(),
            n == old(buffer)@.len(),
            buffer.wf(),
            buffer.width == old(buffer).width,
            buffer.height == old(buffer).height,
            forall|k: int|
                0 <= k < idx ==> #[trigger] buffer@[k] == if output@[k] != ' ' {
                    donut_cell(luminance_chars@, output@[k])
                } else {
                    old(buffer)@[k]
                },
            forall|k: int| idx <= k < n ==> #[trigger] buffer@[k] == old(buffer)@[k],
        decreases n - idx,
    {
        let glyph = output[idx];
        if glyph != ' ' {
            let luminance_index = luminance(luminance_chars, glyph);
            let color = shade(luminance_index % 12);
            proof {
                lemma_position_in_range(buffer.width as int, buffer.height as int, idx as int);
            }
            let (x, y) = buffer.pos_of(idx);
            buffer.set(x, y, Cell::new(glyph, color, Attribute::Bold));
        }
        idx += 1;
    }
    assert(buffer@ =~= painted(old(buffer)@, output@, luminance_chars@));
}

} // verus!
