//! Crabs that walk over the screen: which picture of a crab is shown, and
//! how a picture is put onto the screen.
//!
//! How a crab moves is not decided here.

use vstd::prelude::*;
use crate::buffer::{lemma_position_in_range, Buffer, Cell};
use crate::style::{Attribute, Color};

verus! {

/// The way a crab faces.
#[derive(Clone, Copy, Debug, PartialEq, Eq, Structural)]
pub enum Direction {
    Left,
    Right,
}

/// The number of the picture for a crab: 2 and 5 show the claws open, to
/// the right and to the left; 0 and 1 show a crab walking to the right, 3
/// and 4 one walking to the left.
pub open spec fn frame_index_of(is_special: bool, direction: Direction, current_frame: int) -> int {
    if is_special {
        if direction == Direction::Right {
            2
        } else {
            5
        }
    } else if direction == Direction::Right {
        current_frame % 2
    } else {
        3 + current_frame % 2
    }
}

pub fn get_frame_index(is_special: bool, direction: Direction, current_frame: usize) -> (index: usize)
    ensures
        index == frame_index_of(is_special, direction, current_frame as int),
        index < 6,
{
    if is_special {
        match direction {
            Direction::Right => 2,
            Direction::Left => 5,
        }
    } else {
        match direction {
            Direction::Right => current_frame % 2,
            Direction::Left => 3 + (current_frame % 2),
        }
    }
}

/// The way a crab faces that moves sideways at the given speed, in
/// thousandths of a cell: to the right unless it moves to the left.
pub fn facing(velocity_x: i64) -> (direction: Direction)
    ensures
        direction == if velocity_x >= 0 {
            Direction::Right
        } else {
            Direction::Left
        },
{
    if velocity_x >= 0 {
        Direction::Right
    } else {
        Direction::Left
    }
}

/// The glyph of a picture that comes to lie on `(x, y)` when the picture is
/// put with its upper left corner at `(base_x, base_y)`, where one of the
/// first `rows` lines, and of line `rows` the first `cols` glyphs, does.
pub open spec fn glyph_over(
    lines: Seq<Vec<char>>,
    base_x: int,
    base_y: int,
    x: int,
    y: int,
    rows: int,
    cols: int,
) -> Option<char> {
    let r = y - base_y;
    let c = x - base_x;
    if 0 <= r < lines.len() && 0 <= c < lines[r]@.len() && (r < rows || (r == rows && c < cols)) && lines[r]@[c]
        != ' ' {
        Some(lines[r]@[c])
    } else {
        None
    }
}

/// The cell at the flat index `i` of a frame after the first `rows` lines of
/// the picture, and of line `rows` the first `cols` glyphs, were put onto it
/// in bold: spaces let the frame show through.
pub open spec fn stamped_at(
    frame: Seq<Cell>,
    width: int,
    lines: Seq<Vec<char>>,
    color: Color,
    base_x: int,
    base_y: int,
    rows: int,
    cols: int,
    i: int,
) -> Cell {
    match glyph_over(lines, base_x, base_y, i % width, i / width, rows, cols) {
        Some(glyph) => Cell { symbol: glyph, color, attr: Attribute::Bold },
        None => frame[i],
    }
}

/// The frame with the picture put onto it; what lies outside the grid is
/// left out.
pub open spec fn stamped(
    frame: Seq<Cell>,
    width: int,
    lines: Seq<Vec<char>>,
    color: Color,
    base_x: int,
    base_y: int,
) -> Seq<Cell> {
    Seq::new(
        frame.len(),
        |i: int| stamped_at(frame, width, lines, color, base_x, base_y, lines.len() as int, 0, i),
    )
}

/// Puts a picture onto the buffer, with its upper left corner at `(base_x,
/// base_y)`.
pub fn draw_frame(buffer: &mut Buffer, base_x: usize, base_y: usize, frame_lines: &Vec<Vec<char>>, color: Color)
    requires
        old(buffer).wf(),
    ensures
        final(buffer).wf(),
        final(buffer).width == old(buffer).width,
        final(buffer).height == old(buffer).height,
        final(buffer)@ == stamped(
            old(buffer)@,
            old(buffer).width as int,
            frame_lines@,
            color,
            base_x as int,
            base_y as int,
        ),
{
    let ghost width = buffer.width as int;
    let ghost height = buffer.height as int;
    let ghost frame = buffer@;
    let mut y_offset: usize = 0;
    while y_offset < frame_lines.len()
        invariant
            y_offset <= frame_lines@.len(),
            buffer.wf(),
            buffer.width == width,
            buffer.height == height,
            buffer@.len() == frame.len(),
            forall|i: int|
                0 <= i < frame.len() ==> #[trigger] buffer@[i] == stamped_at(
                    frame,
                    width,
                    frame_lines@,
                    color,
                    base_x as int,
                    base_y as int,
                    y_offset as int,
                    0,
                    i,
                ),
        decreases frame_lines@.len() - y_offset,
    {
        let line = &frame_lines[y_offset];
        let mut x_offset: usize = 0;
        while x_offset < line.len()
            invariant
                x_offset <= line@.len(),
                y_offset < frame_lines@.len(),
                line == frame_lines@[y_offset as int],
                buffer.wf(),
                buffer.width == width,
                buffer.height == height,
                buffer@.len() == frame.len(),
                forall|i: int|
                    0 <= i < frame.len() ==> #[trigger] buffer@[i] == stamped_at(
                        frame,
                        width,
                        frame_lines@,
                        color,
                        base_x as int,
                        base_y as int,
                        y_offset as int,
                        x_offset as int,
                        i,
                    ),
            decreases line@.len() - x_offset,
        {
            let ch = line[x_offset];
            let ghost before = buffer@;
            if ch != ' ' && y_offset < buffer.height && base_y < buffer.height - y_offset && x_offset
                < buffer.width && base_x < buffer.width - x_offset {
                let x = base_x + x_offset;
                let y = base_y + y_offset;
                proof {
                    crate::buffer::lemma_flat_index_in_range(width, height, x as int, y as int);
                }
                buffer.set(x, y, Cell::new(ch, color, Attribute::Bold));
            }
            proof {
                assert forall|i: int| 0 <= i < frame.len() implies #[trigger] buffer@[i] == stamped_at(
                    frame,
                    width,
                    frame_lines@,
                    color,
                    base_x as int,
                    base_y as int,
                    y_offset as int,
                    x_offset + 1,
                    i,
                ) by {
                    lemma_position_in_range(width, height, i);
                    let x = base_x + x_offset;
                    let y = base_y + y_offset;
                    if x < width && y < height {
                        crate::buffer::lemma_flat_index_in_range(width, height, x, y);
                    }
                    assert(before[i] == stamped_at(
                        frame,
                        width,
                        frame_lines@,
                        color,
                        base_x as int,
                        base_y as int,
                        y_offset as int,
                        x_offset as int,
                        i,
                    ));
                }
            }
            x_offset += 1;
        }
        y_offset += 1;
    }
    assert(buffer@ =~= stamped(frame, width, frame_lines@, color, base_x as int, base_y as int));
}

} // verus!
