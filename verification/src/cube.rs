//! Lines of a wire frame, drawn cell by cell or, finer, dot by dot with
//! braille patterns.
//!
//! The corners of the frame come from outside as whole numbers; how they are
//! turned and projected is not decided here.

use vstd::prelude::*;
use crate::buffer::{flat_index, lemma_flat_index_in_range, lemma_position_in_range, uniform, Buffer, Cell};
use crate::style::{Attribute, Color};

verus! {

/// An edge between two corners, each given by its number.
#[derive(Clone, Copy, Debug)]
pub struct Edge {
    pub v1: usize,
    pub v2: usize,
}

/// The cell of a line: a solid green block in bold.
pub open spec fn block_cell() -> Cell {
    Cell { symbol: '\u{2588}', color: Color::Green, attr: Attribute::Bold }
}

/// The cell that shows the braille pattern with the given dots.
pub open spec fn braille_cell(dots: u8) -> Cell {
    Cell { symbol: (0x2800 + dots) as char, color: Color::Green, attr: Attribute::Bold }
}

pub open spec fn distance(a: int, b: int) -> int {
    if a <= b {
        b - a
    } else {
        a - b
    }
}

/// The step that leads from `from` towards `to`.
pub open spec fn toward(from: int, to: int) -> int {
    if from < to {
        1
    } else {
        -1
    }
}

/// The points of a line from where it has come to, `(x0, y0)`, to its end
/// `(x1, y1)`. The whole line is `dx` wide and `-dy` high, and `err` tells
/// how far the points so far lie off the true line: at each step the line
/// moves a column, a row or both, whichever keeps it nearest.
pub open spec fn walk(x0: int, y0: int, x1: int, y1: int, dx: int, dy: int, err: int) -> Seq<(int, int)>
    decreases distance(x0, x1) + distance(y0, y1),
{
    let across = 2 * err >= dy;
    let down = 2 * err <= dx;
    if x0 == x1 && y0 == y1 {
        seq![(x0, y0)]
    } else if (across && x0 == x1) || (down && y0 == y1) || (!across && !down) {
        seq![(x0, y0)]
    } else {
        seq![(x0, y0)] + walk(
            if across {
                x0 + toward(x0, x1)
            } else {
                x0
            },
            if down {
                y0 + toward(y0, y1)
            } else {
                y0
            },
            x1,
            y1,
            dx,
            dy,
            err + if across {
                dy
            } else {
                0
            } + if down {
                dx
            } else {
                0
            },
        )
    }
}

/// The points of the line from `(x0, y0)` to `(x1, y1)`, in the order in
/// which they are drawn.
pub open spec fn line_points(x0: int, y0: int, x1: int, y1: int) -> Seq<(int, int)> {
    walk(x0, y0, x1, y1, distance(x0, x1), -distance(y0, y1), distance(x0, x1) - distance(y0, y1))
}

/// A line starts at its first end, stays inside the box spanned by its two
/// ends, and leads from each point to one of the eight points around it.
pub proof fn lemma_walk(x0: int, y0: int, x1: int, y1: int, dx: int, dy: int, err: int)
    ensures
        walk(x0, y0, x1, y1, dx, dy, err).len() >= 1,
        walk(x0, y0, x1, y1, dx, dy, err)[0] == (x0, y0),
        forall|k: int|
            0 <= k < walk(x0, y0, x1, y1, dx, dy, err).len() ==> {
                let p = #[trigger] walk(x0, y0, x1, y1, dx, dy, err)[k];
                (x0 <= p.0 <= x1 || x1 <= p.0 <= x0) && (y0 <= p.1 <= y1 || y1 <= p.1 <= y0)
            },
        forall|k: int|
            0 <= k < walk(x0, y0, x1, y1, dx, dy, err).len() - 1 ==> {
                let p = #[trigger] walk(x0, y0, x1, y1, dx, dy, err)[k];
                let q = walk(x0, y0, x1, y1, dx, dy, err)[k + 1];
                distance(p.0, q.0) <= 1 && distance(p.1, q.1) <= 1 && p != q
            },
    decreases distance(x0, x1) + distance(y0, y1),
{
    let across = 2 * err >= dy;
    let down = 2 * err <= dx;
    if x0 == x1 && y0 == y1 {
    } else if (across && x0 == x1) || (down && y0 == y1) || (!across && !down) {
    } else {
        let xa = if across {
            x0 + toward(x0, x1)
        } else {
            x0
        };
        let ya = if down {
            y0 + toward(y0, y1)
        } else {
            y0
        };
        let erra = err + if across {
            dy
        } else {
            0
        } + if down {
            dx
        } else {
            0
        };
        lemma_walk(xa, ya, x1, y1, dx, dy, erra);
        let rest = walk(xa, ya, x1, y1, dx, dy, erra);
        let all = walk(x0, y0, x1, y1, dx, dy, err);
        assert(all == seq![(x0, y0)] + rest);
        assert forall|k: int| 0 <= k < all.len() implies {
            let p = #[trigger] all[k];
            (x0 <= p.0 <= x1 || x1 <= p.0 <= x0) && (y0 <= p.1 <= y1 || y1 <= p.1 <= y0)
        } by {
            if k > 0 {
                assert(all[k] == rest[k - 1]);
            }
        }
        assert forall|k: int| 0 <= k < all.len() - 1 implies {
            let p = #[trigger] all[k];
            let q = all[k + 1];
            distance(p.0, q.0) <= 1 && distance(p.1, q.1) <= 1 && p != q
        } by {
            assert(all[k + 1] == rest[k]);
            if k > 0 {
                assert(all[k] == rest[k - 1]);
            }
        }
    }
}

/// A line ends at its second end. Here `(x0, y0)` is where the line has come
/// to, with an `err` that fits the way it has come.
pub proof fn lemma_walk_ends(x0: int, y0: int, x1: int, y1: int, dx: int, dy: int, err: int)
    requires
        distance(x0, x1) <= dx,
        distance(y0, y1) <= -dy,
        err == dx * (1 - distance(y0, y1)) + dy * (1 - distance(x0, x1)),
    ensures
        walk(x0, y0, x1, y1, dx, dy, err).last() == (x1, y1),
    decreases distance(x0, x1) + distance(y0, y1),
{
    let rx = distance(x0, x1);
    let ry = distance(y0, y1);
    let across = 2 * err >= dy;
    let down = 2 * err <= dx;
    if x0 == x1 && y0 == y1 {
    } else {
        if rx == 0 {
            assert(dx * (1 - ry) <= 0) by (nonlinear_arith)
                requires dx >= 0, ry >= 1;
            assert(dy * (1 - rx) == dy) by (nonlinear_arith)
                requires rx == 0;
            assert(!across);
            assert(down);
        } else if ry == 0 {
            assert(dy * (1 - rx) >= 0) by (nonlinear_arith)
                requires dy <= 0, rx >= 1;
            assert(dx * (1 - ry) == dx) by (nonlinear_arith)
                requires ry == 0;
            assert(!down);
            assert(across);
        }
        let xa = if across {
            x0 + toward(x0, x1)
        } else {
            x0
        };
        let ya = if down {
            y0 + toward(y0, y1)
        } else {
            y0
        };
        let erra = err + if across {
            dy
        } else {
            0
        } + if down {
            dx
        } else {
            0
        };
        assert(erra == dx * (1 - distance(ya, y1)) + dy * (1 - distance(xa, x1))) by (nonlinear_arith)
            requires
                err == dx * (1 - ry) + dy * (1 - rx),
                erra == err + if across {
                    dy
                } else {
                    0
                } + if down {
                    dx
                } else {
                    0
                },
                distance(xa, x1) == if across {
                    rx - 1
                } else {
                    rx
                },
                distance(ya, y1) == if down {
                    ry - 1
                } else {
                    ry
                },
        ;
        lemma_walk_ends(xa, ya, x1, y1, dx, dy, erra);
        let rest = walk(xa, ya, x1, y1, dx, dy, erra);
        lemma_walk(xa, ya, x1, y1, dx, dy, erra);
        assert((seq![(x0, y0)] + rest).last() == rest.last());
    }
}

/// The line from `(x0, y0)` to `(x1, y1)` starts at the one and ends at the
/// other.
pub proof fn lemma_line_ends(x0: int, y0: int, x1: int, y1: int)
    ensures
        line_points(x0, y0, x1, y1).len() >= 1,
        line_points(x0, y0, x1, y1).first() == (x0, y0),
        line_points(x0, y0, x1, y1).last() == (x1, y1),
{
    let dx = distance(x0, x1);
    let dy = -distance(y0, y1);
    lemma_walk(x0, y0, x1, y1, dx, dy, dx + dy);
    assert(dx + dy == dx * (1 - distance(y0, y1)) + dy * (1 - distance(x0, x1))) by (nonlinear_arith)
        requires dx == distance(x0, x1), dy == -distance(y0, y1);
    lemma_walk_ends(x0, y0, x1, y1, dx, dy, dx + dy);
}

/// The frame with a block at each of the first `n` points, as far as they
/// lie inside the grid.
pub open spec fn plot(frame: Seq<Cell>, width: int, height: int, points: Seq<(int, int)>, n: int) -> Seq<Cell>
    decreases n,
{
    if n <= 0 {
        frame
    } else {
        let before = plot(frame, width, height, points, n - 1);
        let p = points[n - 1];
        if 0 <= p.0 < width && 0 <= p.1 < height {
            before.update(flat_index(width, p.0, p.1), block_cell())
        } else {
            before
        }
    }
}

/// The frame after the line from `(x0, y0)` to `(x1, y1)` was drawn onto
/// it.
pub open spec fn line(frame: Seq<Cell>, width: int, height: int, x0: int, y0: int, x1: int, y1: int) -> Seq<Cell> {
    plot(frame, width, height, line_points(x0, y0, x1, y1), line_points(x0, y0, x1, y1).len() as int)
}

/// The bit of the dot in column `x` and row `y` of a braille pattern two
/// dots wide and four dots high.
pub open spec fn dot_bit(x: int, y: int) -> u8 {
    bit((y % 4) * 2 + x % 2)
}

pub open spec fn bit(k: int) -> u8 {
    if k == 0 {
        1
    } else if k == 1 {
        2
    } else if k == 2 {
        4
    } else if k == 3 {
        8
    } else if k == 4 {
        16
    } else if k == 5 {
        32
    } else if k == 6 {
        64
    } else {
        128
    }
}

/// The dots of each cell after the first `n` points were marked, as far as
/// they lie inside a grid of `width` by `height` cells, which is twice as
/// many dots wide and four times as many dots high.
pub open spec fn mark(dots: Seq<u8>, width: int, height: int, points: Seq<(int, int)>, n: int) -> Seq<u8>
    decreases n,
{
    if n <= 0 {
        dots
    } else {
        let before = mark(dots, width, height, points, n - 1);
        let p = points[n - 1];
        if 0 <= p.0 < 2 * width && 0 <= p.1 < 4 * height {
            before.update(
                flat_index(width, p.0 / 2, p.1 / 4),
                before[flat_index(width, p.0 / 2, p.1 / 4)] | dot_bit(p.0, p.1),
            )
        } else {
            before
        }
    }
}

/// The frame with a braille pattern in each cell that has a dot.
pub open spec fn with_dots(frame: Seq<Cell>, dots: Seq<u8>) -> Seq<Cell> {
    Seq::new(
        frame.len(),
        |i: int|
            if dots[i] != 0 {
                braille_cell(dots[i])
            } else {
                frame[i]
            },
    )
}

/// The frame after the line between two dots was drawn onto it with braille
/// patterns.
pub open spec fn braille_line(
    frame: Seq<Cell>,
    width: int,
    height: int,
    x0: int,
    y0: int,
    x1: int,
    y1: int,
) -> Seq<Cell> {
    with_dots(
        frame,
        mark(
            Seq::new(frame.len(), |i: int| 0u8),
            width,
            height,
            line_points(x0, y0, x1, y1),
            line_points(x0, y0, x1, y1).len() as int,
        ),
    )
}

/// Marking keeps the number of cells.
proof fn lemma_mark_length(dots: Seq<u8>, width: int, height: int, points: Seq<(int, int)>, n: int)
    requires
        0 <= width,
        0 <= height,
        dots.len() == width * height,
    ensures
        mark(dots, width, height, points, n).len() == dots.len(),
    decreases n,
{
    if n > 0 {
        lemma_mark_length(dots, width, height, points, n - 1);
        let p = points[n - 1];
        if 0 <= p.0 < 2 * width && 0 <= p.1 < 4 * height {
            lemma_flat_index_in_range(width, height, p.0 / 2, p.1 / 4);
        }
    }
}

/// Where a line goes next.
struct Pen {
    x0: i64,
    y0: i64,
    x1: i64,
    y1: i64,
    dx: i64,
    dy: i64,
    sx: i64,
    sy: i64,
    err: i64,
}

impl Pen {
    spec fn wf(self) -> bool {
        &&& -0x8000_0000 <= self.x0 <= 0x7fff_ffff
        &&& -0x8000_0000 <= self.y0 <= 0x7fff_ffff
        &&& -0x8000_0000 <= self.x1 <= 0x7fff_ffff
        &&& -0x8000_0000 <= self.y1 <= 0x7fff_ffff
        &&& 0 <= self.dx <= 0xffff_ffff
        &&& -0xffff_ffff <= self.dy <= 0
        &&& 3 * self.dy <= 2 * self.err <= 3 * self.dx
        &&& self.x0 != self.x1 ==> self.sx == toward(self.x0 as int, self.x1 as int)
        &&& self.y0 != self.y1 ==> self.sy == toward(self.y0 as int, self.y1 as int)
        &&& (self.sx == 1 || self.sx == -1)
        &&& (self.sy == 1 || self.sy == -1)
    }

    /// The points that are still to come, the one under the pen first.
    spec fn ahead(self) -> Seq<(int, int)> {
        walk(
            self.x0 as int,
            self.y0 as int,
            self.x1 as int,
            self.y1 as int,
            self.dx as int,
            self.dy as int,
            self.err as int,
        )
    }

    spec fn to_go(self) -> int {
        distance(self.x0 as int, self.x1 as int) + distance(self.y0 as int, self.y1 as int)
    }

    fn new(x0: i32, y0: i32, x1: i32, y1: i32) -> (pen: Pen)
        ensures
            pen.wf(),
            pen.x0 == x0,
            pen.y0 == y0,
            pen.ahead() == line_points(x0 as int, y0 as int, x1 as int, y1 as int),
    {
        let x0: i64 = x0 as i64;
        let y0: i64 = y0 as i64;
        let x1: i64 = x1 as i64;
        let y1: i64 = y1 as i64;
        let dx: i64 = if x0 <= x1 {
            x1 - x0
        } else {
            x0 - x1
        };
        let sx: i64 = if x0 < x1 {
            1
        } else {
            -1
        };
        let dy: i64 = if y0 <= y1 {
            y0 - y1
        } else {
            y1 - y0
        };
        let sy: i64 = if y0 < y1 {
            1
        } else {
            -1
        };
        Pen { x0, y0, x1, y1, dx, dy, sx, sy, err: dx + dy }
    }

    /// Moves the pen to the next point of the line; false where the point
    /// under the pen was the last.
    fn step(&mut self) -> (more: bool)
        requires
            old(self).wf(),
        ensures
            final(self).wf(),
            more ==> old(self).ahead() == seq![(old(self).x0 as int, old(self).y0 as int)] + final(self).ahead(),
            more ==> final(self).to_go() < old(self).to_go(),
            !more ==> old(self).ahead() == seq![(old(self).x0 as int, old(self).y0 as int)],
    {
        if self.x0 == self.x1 && self.y0 == self.y1 {
            return false;
        }
        let e2 = 2 * self.err;
        let across = e2 >= self.dy;
        let down = e2 <= self.dx;
        if (across && self.x0 == self.x1) || (down && self.y0 == self.y1) {
            return false;
        }
        if across {
            self.err += self.dy;
            self.x0 += self.sx;
        }
        if down {
            self.err += self.dx;
            self.y0 += self.sy;
        }
        true
    }
}

/// Draws the line from `(x0, y0)` to `(x1, y1)` with solid blocks. Parts of
/// the line outside the grid are left out.
pub fn draw_line(x0: i32, y0: i32, x1: i32, y1: i32, buffer: &mut Buffer)
    requires
        old(buffer).wf(),
    ensures
        final(buffer).wf(),
        final(buffer).width == old(buffer).width,
        final(buffer).height == old(buffer).height,
        final(buffer)@ == line(
            old(buffer)@,
            old(buffer).width as int,
            old(buffer).height as int,
            x0 as int,
            y0 as int,
            x1 as int,
            y1 as int,
        ),
{
    let mut pen = Pen::new(x0, y0, x1, y1);
    let ghost width = buffer.width as int;
    let ghost height = buffer.height as int;
    let ghost all = line_points(x0 as int, y0 as int, x1 as int, y1 as int);
    let ghost mut done: Seq<(int, int)> = Seq::empty();
    loop
        invariant_except_break
            pen.wf(),
            done + pen.ahead() == all,
            buffer@ == plot(old(buffer)@, width, height, all, done.len() as int),
        invariant
            buffer.wf(),
            buffer.width == width,
            buffer.height == height,
        ensures
            buffer@ == plot(old(buffer)@, width, height, all, all.len() as int),
        decreases pen.to_go(),
    {
        proof {
            lemma_walk(
                pen.x0 as int,
                pen.y0 as int,
                pen.x1 as int,
                pen.y1 as int,
                pen.dx as int,
                pen.dy as int,
                pen.err as int,
            );
            assert(all[done.len() as int] == (done + pen.ahead())[done.len() as int]);
        }
        if pen.x0 >= 0 && pen.y0 >= 0 && (pen.x0 as u64) < buffer.width as u64 && (pen.y0 as u64)
            < buffer.height as u64 {
            buffer.set(pen.x0 as usize, pen.y0 as usize, Cell::new('\u{2588}', Color::Green, Attribute::Bold));
        }
        let ghost here = (pen.x0 as int, pen.y0 as int);
        let ghost before = pen.ahead();
        let more = pen.step();
        proof {
            let longer = done.push(here);
            if more {
                assert(longer + pen.ahead() =~= done + before);
            } else {
                assert(longer =~= done + before);
            }
            done = longer;
        }
        if !more {
            break;
        }
    }
}

/// `char::from_u32`: the character with the given code. There is one for
/// each code but those from 0xD800 to 0xDFFF and those above 0x10FFFF.
#[verifier::external_body]
fn char_from_u32(code: u32) -> (c: Option<char>)
    ensures
        c.is_some() <==> code < 0xD800 || 0xE000 <= code <= 0x10FFFF,
        c matches Some(ch) ==> ch == code as char,
{
    char::from_u32(code)
}

/// The character that shows the braille pattern with the given dots.
fn braille_char(dots: u8) -> (c: char)
    ensures
        c == (0x2800 + dots) as char,
{
    match char_from_u32(0x2800 + dots as u32) {
        Some(c) => c,
        None => '?',
    }
}

fn bit_of(k: u8) -> (b: u8)
    ensures
        b == bit(k as int),
{
    if k == 0 {
        1
    } else if k == 1 {
        2
    } else if k == 2 {
        4
    } else if k == 3 {
        8
    } else if k == 4 {
        16
    } else if k == 5 {
        32
    } else if k == 6 {
        64
    } else {
        128
    }
}

/// Draws the line between two dots with braille patterns: each cell of the
/// grid is two dots wide and four dots high. Parts of the line outside the
/// grid are left out.
pub fn draw_braille_line(x0: i32, y0: i32, x1: i32, y1: i32, buffer: &mut Buffer)
    requires
        old(buffer).wf(),
    ensures
        final(buffer).wf(),
        final(buffer).width == old(buffer).width,
        final(buffer).height == old(buffer).height,
        final(buffer)@ == braille_line(
            old(buffer)@,
            old(buffer).width as int,
            old(buffer).height as int,
            x0 as int,
            y0 as int,
            x1 as int,
            y1 as int,
        ),
{
    let mut pen = Pen::new(x0, y0, x1, y1);
    let ghost width = buffer.width as int;
    let ghost height = buffer.height as int;
    let ghost all = line_points(x0 as int, y0 as int, x1 as int, y1 as int);
    let ghost mut done: Seq<(int, int)> = Seq::empty();
    let n = buffer.buffer.len();
    let mut braille_map: Vec<u8> = vec![0u8; n];
    let ghost clear = Seq::new(buffer@.len(), |i: int| 0u8);
    assert(braille_map@ =~= clear);
    loop
        invariant_except_break
            pen.wf(),
            done + pen.ahead() == all,
            braille_map@ == mark(clear, width, height, all, done.len() as int),
        invariant
            buffer.wf(),
            *buffer == *old(buffer),
            buffer.width == width,
            buffer.height == height,
            clear.len() == width * height,
            braille_map@.len() == n,
            n == width * height,
        ensures
            braille_map@ == mark(clear, width, height, all, all.len() as int),
        decreases pen.to_go(),
    {
        proof {
            lemma_walk(
                pen.x0 as int,
                pen.y0 as int,
                pen.x1 as int,
                pen.y1 as int,
                pen.dx as int,
                pen.dy as int,
                pen.err as int,
            );
            assert(all[done.len() as int] == (done + pen.ahead())[done.len() as int]);
            lemma_mark_length(clear, width, height, all, done.len() as int);
            lemma_mark_length(clear, width, height, all, done.len() as int + 1);
        }
        if pen.x0 >= 0 && pen.y0 >= 0 && (pen.x0 as u64) / 2 < buffer.width as u64 && (pen.y0 as u64) / 4
            < buffer.height as u64 {
            let cell_x = (pen.x0 / 2) as usize;
            let cell_y = (pen.y0 / 4) as usize;
            let dot_x = (pen.x0 % 2) as u8;
            let dot_y = (pen.y0 % 4) as u8;
            let dot_index = dot_y * 2 + dot_x;
            let key = buffer.index_of(cell_x, cell_y);
            let dots = braille_map[key];
            braille_map.set(key, dots | bit_of(dot_index));
        }
        let ghost here = (pen.x0 as int, pen.y0 as int);
        let ghost before = pen.ahead();
        let more = pen.step();
        proof {
            let longer = done.push(here);
            if more {
                assert(longer + pen.ahead() =~= done + before);
            } else {
                assert(longer =~= done + before);
            }
            done = longer;
        }
        if !more {
            break;
        }
    }
    let mut i: usize = 0;
    while i < n
        invariant
            i <= n,
            n == braille_map@.len(),
            n == old(buffer)@.len(),
            buffer.wf(),
            buffer.width == width,
            buffer.height == height,
            buffer@.len() == n,
            forall|k: int|
                0 <= k < i ==> #[trigger] buffer@[k] == if braille_map@[k] != 0 {
                    braille_cell(braille_map@[k])
                } else {
                    old(buffer)@[k]
                },
            forall|k: int| i <= k < n ==> #[trigger] buffer@[k] == old(buffer)@[k],
        decreases n - i,
    {
        let dots = braille_map[i];
        if dots != 0 {
            proof {
                lemma_position_in_range(width, height, i as int);
            }
            let (x, y) = buffer.pos_of(i);
            buffer.set(x, y, Cell::new(braille_char(dots), Color::Green, Attribute::Bold));
        }
        i += 1;
    }
    assert(buffer@ =~= with_dots(old(buffer)@, braille_map@));
}

/// The frame after the first `n` edges were drawn onto it with braille
/// patterns, each corner given in dots.
pub open spec fn braille_lines(
    frame: Seq<Cell>,
    width: int,
    height: int,
    projected: Seq<(i32, i32)>,
    edges: Seq<Edge>,
    n: int,
) -> Seq<Cell>
    decreases n,
{
    if n <= 0 {
        frame
    } else {
        let from = projected[edges[n - 1].v1 as int];
        let to = projected[edges[n - 1].v2 as int];
        braille_line(
            braille_lines(frame, width, height, projected, edges, n - 1),
            width,
            height,
            from.0 as int,
            from.1 as int,
            to.0 as int,
            to.1 as int,
        )
    }
}

/// Clears the buffer and draws each edge between its two corners, given in
/// dots, with braille patterns.
pub fn draw_braille(projected: &Vec<(i32, i32)>, edges: &Vec<Edge>, buffer: &mut Buffer)
    requires
        old(buffer).wf(),
        edges_fit(edges@, projected@.len()),
    ensures
        final(buffer).wf(),
        final(buffer).width == old(buffer).width,
        final(buffer).height == old(buffer).height,
        final(buffer)@ == braille_lines(
            uniform(old(buffer)@.len(), Cell::blank()),
            old(buffer).width as int,
            old(buffer).height as int,
            projected@,
            edges@,
            edges@.len() as int,
        ),
{
    buffer.fill_with(&Cell::default());
    let ghost cleared = buffer@;
    let mut k: usize = 0;
    while k < edges.len()
        invariant
            k <= edges@.len(),
            buffer.wf(),
            buffer.width == old(buffer).width,
            buffer.height == old(buffer).height,
            cleared == uniform(old(buffer)@.len(), Cell::blank()),
            edges_fit(edges@, projected@.len()),
            buffer@ == braille_lines(
                cleared,
                old(buffer).width as int,
                old(buffer).height as int,
                projected@,
                edges@,
                k as int,
            ),
        decreases edges@.len() - k,
    {
        let edge = edges[k];
        let from = projected[edge.v1];
        let to = projected[edge.v2];
        draw_braille_line(from.0, from.1, to.0, to.1, buffer);
        k += 1;
    }
}

/// The twelve edges of a cube whose corners are numbered from 0 to 3 around
/// the front face and from 4 to 7 around the back face.
pub fn cube_edges() -> (edges: Vec<Edge>)
    ensures
        edges@.len() == 12,
        edges_fit(edges@, 8),
        forall|k: int|
            0 <= k < 4 ==> (#[trigger] edges@[k]).v1 == k && edges@[k].v2 == (k + 1) % 4 && edges@[k + 4].v1 == k
                + 4 && edges@[k + 4].v2 == (k + 1) % 4 + 4 && edges@[k + 8].v1 == k && edges@[k + 8].v2 == k
                + 4,
{
    let mut edges: Vec<Edge> = Vec::new();
    // Front face
    edges.push(Edge { v1: 0, v2: 1 });
    edges.push(Edge { v1: 1, v2: 2 });
    edges.push(Edge { v1: 2, v2: 3 });
    edges.push(Edge { v1: 3, v2: 0 });
    // Back face
    edges.push(Edge { v1: 4, v2: 5 });
    edges.push(Edge { v1: 5, v2: 6 });
    edges.push(Edge { v1: 6, v2: 7 });
    edges.push(Edge { v1: 7, v2: 4 });
    // Connecting edges
    edges.push(Edge { v1: 0, v2: 4 });
    edges.push(Edge { v1: 1, v2: 5 });
    edges.push(Edge { v1: 2, v2: 6 });
    edges.push(Edge { v1: 3, v2: 7 });
    edges
}

/// The frame after the first `n` edges were drawn onto it.
pub open spec fn lines(
    frame: Seq<Cell>,
    width: int,
    height: int,
    projected: Seq<(i32, i32)>,
    edges: Seq<Edge>,
    n: int,
) -> Seq<Cell>
    decreases n,
{
    if n <= 0 {
        frame
    } else {
        let from = projected[edges[n - 1].v1 as int];
        let to = projected[edges[n - 1].v2 as int];
        line(
            lines(frame, width, height, projected, edges, n - 1),
            width,
            height,
            from.0 as int,
            from.1 as int,
            to.0 as int,
            to.1 as int,
        )
    }
}

/// Each edge leads from one of the corners to another.
pub open spec fn edges_fit(edges: Seq<Edge>, corners: nat) -> bool {
    forall|k: int| 0 <= k < edges.len() ==> (#[trigger] edges[k]).v1 < corners && edges[k].v2 < corners
}

/// Clears the buffer and draws each edge between its two corners with solid
/// blocks.
pub fn draw_ascii(projected: &Vec<(i32, i32)>, edges: &Vec<Edge>, buffer: &mut Buffer)
    requires
        old(buffer).wf(),
        edges_fit(edges@, projected@.len()),
    ensures
        final(buffer).wf(),
        final(buffer).width == old(buffer).width,
        final(buffer).height == old(buffer).height,
        final(buffer)@ == lines(
            uniform(old(buffer)@.len(), Cell::blank()),
            old(buffer).width as int,
            old(buffer).height as int,
            projected@,
            edges@,
            edges@.len() as int,
        ),
{
    buffer.fill_with(&Cell::default());
    let ghost cleared = buffer@;
    let mut k: usize = 0;
    while k < edges.len()
        invariant
            k <= edges@.len(),
            buffer.wf(),
            buffer.width == old(buffer).width,
            buffer.height == old(buffer).height,
            cleared == uniform(old(buffer)@.len(), Cell::blank()),
            edges_fit(edges@, projected@.len()),
            buffer@ == lines(
                cleared,
                old(buffer).width as int,
                old(buffer).height as int,
                projected@,
                edges@,
                k as int,
            ),
        decreases edges@.len() - k,
    {
        let edge = edges[k];
        let from = projected[edge.v1];
        let to = projected[edge.v2];
        draw_line(from.0, from.1, to.0, to.1, buffer);
        k += 1;
    }
}

} // verus!
