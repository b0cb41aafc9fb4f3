//! Conway's game of life.
//!
//! A living cell with two or three living neighbours lives on, a dead cell
//! with exactly three living neighbours comes to life, and every other cell
//! is dead in the next generation. The neighbours are counted on the frame
//! that was handed out last. Each generation, gliders are dropped at random
//! onto the board to keep it alive.

use vstd::prelude::*;
use rand::rngs::ThreadRng;
use crate::buffer::{
    flat_index, lemma_flat_index_in_range, lemma_position_in_range, uniform, Buffer, Cell, Change,
};
use crate::effect::{area, TerminalEffect};
use crate::glyphs::{life_glyphs, random_life_glyph};
use crate::random::draw;
use crate::style::{Attribute, Color};

verus! {

#[derive(Clone, Copy, Debug, Default)]
pub struct ConwayLifeOptions {
    pub initial_cells: u32,
}

/// A living cell: its glyph and its colour.
#[derive(Clone, Copy, Debug, PartialEq, Eq, Structural)]
pub struct LifeCell {
    pub character: char,
    pub color: Color,
}

pub struct ConwayLife {
    pub screen_size: (u16, u16),
    options: ConwayLifeOptions,
    buffer: Buffer,
    /// For each position, row by row, the cell that lives there.
    cells: Vec<Option<LifeCell>>,
    pub rng: ThreadRng,
    pub current_gen: u8,
}

/// A board as a plain value.
pub struct LifeView {
    pub options: ConwayLifeOptions,
    pub size: (u16, u16),
    pub shown: Seq<Cell>,
    pub cells: Seq<Option<LifeCell>>,
    pub generation: u8,
}

/// A glider dropped onto the board: the corner of its three-by-three box
/// and the quarter turns it was given.
pub struct Glider {
    pub x: int,
    pub y: int,
    pub turns: int,
}

/// The step from a position to its neighbour number `k`, column by column.
pub open spec fn neighbor_step(k: int) -> (int, int) {
    if k == 0 {
        (-1, -1)
    } else if k == 1 {
        (-1, 0)
    } else if k == 2 {
        (-1, 1)
    } else if k == 3 {
        (0, -1)
    } else if k == 4 {
        (0, 1)
    } else if k == 5 {
        (1, -1)
    } else if k == 6 {
        (1, 0)
    } else {
        (1, 1)
    }
}

/// The first `k` of the eight neighbours of a position, each with its flat
/// index and its cell, as far as they lie inside the grid; with `marked`,
/// only those that show a glyph.
pub open spec fn neighbors_upto(
    frame: Seq<Cell>,
    width: int,
    height: int,
    x: int,
    y: int,
    marked: bool,
    k: int,
) -> Seq<(int, int, Cell)>
    decreases k,
{
    if k <= 0 {
        Seq::empty()
    } else {
        let before = neighbors_upto(frame, width, height, x, y, marked, k - 1);
        let nx = x + neighbor_step(k - 1).0;
        let ny = y + neighbor_step(k - 1).1;
        if 0 <= nx < width && 0 <= ny < height && (!marked || frame[flat_index(width, nx, ny)].symbol != ' ') {
            before.push((nx, ny, frame[flat_index(width, nx, ny)]))
        } else {
            before
        }
    }
}

/// Number of neighbours of the position with the flat index `i` that show a
/// glyph.
pub open spec fn living_around(frame: Seq<Cell>, width: int, height: int, i: int) -> nat {
    neighbors_upto(frame, width, height, i % width, i / width, true, 8).len()
}

/// The green of generation `generation`: it fades as the generations go by.
pub open spec fn green_of(generation: u8) -> Color {
    Color::Rgb { r: 0, g: (255 - generation) as u8, b: 0 }
}

/// The cell of a glider.
pub open spec fn glider_cell(generation: u8) -> LifeCell {
    LifeCell { character: '0', color: green_of(generation) }
}

/// The five cells of a glider inside its box.
pub open spec fn glider_part(j: int) -> (int, int) {
    if j == 0 {
        (1, 0)
    } else if j == 1 {
        (2, 1)
    } else if j == 2 {
        (0, 2)
    } else if j == 3 {
        (1, 2)
    } else {
        (2, 2)
    }
}

/// Where part `j` of a glider lies that was turned by `rotation` degrees and
/// put at `(x, y)`.
pub open spec fn glider_spot(x: int, y: int, rotation: int, j: int) -> (int, int) {
    let (dx, dy) = glider_part(j);
    if rotation == 90 {
        (x + dy, y - dx + 2)
    } else if rotation == 180 {
        (x - dx + 2, y - dy + 2)
    } else if rotation == 270 {
        (x - dy, y + dx)
    } else {
        (x + dx, y + dy)
    }
}

/// The board after the first `n` parts of a glider were put onto it.
pub open spec fn with_glider(
    cells: Seq<Option<LifeCell>>,
    width: int,
    x: int,
    y: int,
    rotation: int,
    generation: u8,
    n: int,
) -> Seq<Option<LifeCell>>
    decreases n,
{
    if n <= 0 {
        cells
    } else {
        let spot = glider_spot(x, y, rotation, n - 1);
        with_glider(cells, width, x, y, rotation, generation, n - 1).update(
            flat_index(width, spot.0, spot.1),
            Some(glider_cell(generation)),
        )
    }
}

/// The board after the first `n` of the gliders were put onto it.
pub open spec fn with_gliders(
    cells: Seq<Option<LifeCell>>,
    width: int,
    gliders: Seq<Glider>,
    generation: u8,
    n: int,
) -> Seq<Option<LifeCell>>
    decreases n,
{
    if n <= 0 {
        cells
    } else {
        with_glider(
            with_gliders(cells, width, gliders, generation, n - 1),
            width,
            gliders[n - 1].x,
            gliders[n - 1].y,
            90 * gliders[n - 1].turns,
            generation,
            5,
        )
    }
}

/// Number of living cells among the first `n`.
pub open spec fn living_upto(cells: Seq<Option<LifeCell>>, n: int) -> nat
    decreases n,
{
    if n <= 0 {
        0
    } else if cells[n - 1].is_some() {
        living_upto(cells, n - 1) + 1
    } else {
        living_upto(cells, n - 1)
    }
}

/// A board without cells has no living cell.
proof fn lemma_none_living(cells: Seq<Option<LifeCell>>, n: int)
    requires
        n <= cells.len(),
        forall|i: int| 0 <= i < cells.len() ==> cells[i].is_none(),
    ensures
        living_upto(cells, n) == 0,
    decreases n,
{
    if n > 0 {
        lemma_none_living(cells, n - 1);
    }
}

/// Putting a cell onto the board takes no living cell away and adds one at
/// most; the cell put there is alive.
proof fn lemma_one_more_living(cells: Seq<Option<LifeCell>>, at: int, cell: LifeCell, n: int)
    requires
        0 <= at < cells.len(),
        n <= cells.len(),
    ensures
        living_upto(cells, n) <= living_upto(cells.update(at, Some(cell)), n) <= living_upto(cells, n) + 1,
        n <= at ==> living_upto(cells.update(at, Some(cell)), n) == living_upto(cells, n),
        at < n ==> living_upto(cells.update(at, Some(cell)), n) >= 1,
    decreases n,
{
    if n > 0 {
        lemma_one_more_living(cells, at, cell, n - 1);
    }
}

/// A glider lies inside a board of the given size.
pub open spec fn glider_fits(glider: Glider, width: int, height: int) -> bool {
    &&& 2 <= glider.x < width - 2
    &&& 2 <= glider.y < height - 2
    &&& 0 <= glider.turns < 4
}

impl LifeView {
    pub open spec fn width(self) -> int {
        self.size.0 as int
    }

    pub open spec fn height(self) -> int {
        self.size.1 as int
    }

    /// The generation that follows this one: they are counted from 0 to 254
    /// and then from 0 again.
    pub open spec fn next_generation(self) -> u8 {
        ((self.generation + 1) % 255) as u8
    }

    /// The cell with the flat index `i` is alive in the next generation.
    pub open spec fn lives_on(self, i: int) -> bool {
        let around = living_around(self.shown, self.width(), self.height(), i);
        if self.cells[i].is_some() {
            around == 2 || around == 3
        } else {
            around == 3
        }
    }

    /// `next` holds the cells that are alive in the next generation, each
    /// with a glyph of its own and in the green of that generation.
    pub open spec fn evolves_to(self, next: Seq<Option<LifeCell>>) -> bool {
        &&& next.len() == self.cells.len()
        &&& forall|i: int|
            0 <= i < next.len() ==> match #[trigger] next[i] {
                Some(cell) => self.lives_on(i) && cell.color == green_of(self.next_generation())
                    && life_glyphs().contains(cell.character),
                None => !self.lives_on(i),
            }
    }

    /// What one tick may lead to: the next generation, with nine gliders
    /// dropped onto it where the board is at least five cells wide and
    /// high.
    pub open spec fn ticks_to(self, next: LifeView) -> bool {
        exists|evolved: Seq<Option<LifeCell>>, gliders: Seq<Glider>|
            {
                &&& #[trigger] self.evolves_to(evolved)
                &&& gliders.len() == if self.width() >= 5 && self.height() >= 5 {
                    9nat
                } else {
                    0nat
                }
                &&& forall|k: int|
                    0 <= k < gliders.len() ==> glider_fits(#[trigger] gliders[k], self.width(), self.height())
                &&& next == (LifeView {
                    cells: #[trigger] with_gliders(
                        evolved,
                        self.width(),
                        gliders,
                        self.next_generation(),
                        gliders.len() as int,
                    ),
                    generation: self.next_generation(),
                    ..self
                })
            }
    }

    /// The frame that shows the living cells, each in bold.
    pub open spec fn scene(self) -> Seq<Cell> {
        Seq::new(
            self.cells.len(),
            |i: int|
                match self.cells[i] {
                    Some(cell) => Cell { symbol: cell.character, color: cell.color, attr: Attribute::Bold },
                    None => Cell::blank(),
                },
        )
    }

    /// Number of living cells.
    pub open spec fn living(self) -> nat {
        living_upto(self.cells, self.cells.len() as int)
    }

    /// The board as it is built: nothing shown, and stars in bright green
    /// in some of its cells: in one at least where the options ask for any,
    /// and in no more than they ask for.
    pub open spec fn fresh(self, size: (u16, u16)) -> bool {
        &&& self.size == size
        &&& self.shown == uniform(area(size), Cell::blank())
        &&& self.cells.len() == area(size)
        &&& self.generation == 0
        &&& self.living() <= self.options.initial_cells
        &&& self.options.initial_cells >= 1 ==> self.living() >= 1
        &&& forall|i: int|
            0 <= i < self.cells.len() ==> (#[trigger] self.cells[i] matches Some(cell) ==> cell == LifeCell {
                character: '*',
                color: green_of(0),
            })
    }
}

impl LifeCell {
    /// A cell in bright green.
    pub fn new(character: char) -> (cell: LifeCell)
        ensures
            cell == (LifeCell { character, color: green_of(0) }),
    {
        LifeCell { character, color: Color::Rgb { r: 0, g: 255, b: 0 } }
    }

    /// Gives the cell the green of the generation and a glyph picked at
    /// random.
    pub fn update_color_and_char(&mut self, rng: &mut ThreadRng, current_gen: u8)
        ensures
            final(self).color == green_of(current_gen),
            life_glyphs().contains(final(self).character),
    {
        let green_color = 255 - current_gen;
        self.color = Color::Rgb { r: 0, g: green_color, b: 0 };
        self.character = random_life_glyph(rng);
    }
}

fn neighbor_offset(k: usize) -> (d: (i8, i8))
    requires
        k < 8,
    ensures
        d.0 == neighbor_step(k as int).0,
        d.1 == neighbor_step(k as int).1,
{
    if k == 0 {
        (-1, -1)
    } else if k == 1 {
        (-1, 0)
    } else if k == 2 {
        (-1, 1)
    } else if k == 3 {
        (0, -1)
    } else if k == 4 {
        (0, 1)
    } else if k == 5 {
        (1, -1)
    } else if k == 6 {
        (1, 0)
    } else {
        (1, 1)
    }
}

/// The neighbour of `(x, y)` one step away, where it lies inside the grid.
fn neighbor_of(buf: &Buffer, x: usize, y: usize, d: (i8, i8)) -> (spot: Option<(usize, usize)>)
    requires
        -1 <= d.0 <= 1,
        -1 <= d.1 <= 1,
    ensures
        spot.is_some() == (0 <= x + d.0 < buf.width && 0 <= y + d.1 < buf.height),
        spot matches Some(s) ==> s.0 == x + d.0 && s.1 == y + d.1,
{
    if (d.0 < 0 && x == 0) || (d.1 < 0 && y == 0) {
        return None;
    }
    if (d.0 > 0 && x >= buf.width) || (d.1 > 0 && y >= buf.height) {
        return None;
    }
    let nx = if d.0 < 0 {
        x - 1
    } else if d.0 > 0 {
        x + 1
    } else {
        x
    };
    let ny = if d.1 < 0 {
        y - 1
    } else if d.1 > 0 {
        y + 1
    } else {
        y
    };
    if nx < buf.width && ny < buf.height {
        Some((nx, ny))
    } else {
        None
    }
}

/// The neighbours of the cell with the flat index `index` that show a glyph,
/// each with its flat index, column by column.
pub fn get_neighbors_by_index(buf: &Buffer, index: usize) -> (neighbors: Vec<(usize, Cell)>)
    requires
        buf.wf(),
    ensures
        neighbors@.len() == living_around(buf@, buf.width as int, buf.height as int, index as int),
        forall|k: int|
            0 <= k < neighbors@.len() ==> {
                let n = neighbors_upto(
                    buf@,
                    buf.width as int,
                    buf.height as int,
                    index as int % buf.width as int,
                    index as int / buf.width as int,
                    true,
                    8,
                )[k];
                #[trigger] neighbors@[k] == (flat_index(buf.width as int, n.0, n.1) as usize, n.2)
            },
{
    let mut neighbors: Vec<(usize, Cell)> = Vec::new();
    let (x, y) = buf.pos_of(index);
    let ghost w = buf.width as int;
    let ghost h = buf.height as int;
    let mut k: usize = 0;
    while k < 8
        invariant
            k <= 8,
            buf.wf(),
            w == buf.width,
            h == buf.height,
            x == index as int % w,
            y == index as int / w,
            neighbors@.len() == neighbors_upto(buf@, w, h, x as int, y as int, true, k as int).len(),
            forall|j: int|
                0 <= j < neighbors@.len() ==> {
                    let n = neighbors_upto(buf@, w, h, x as int, y as int, true, k as int)[j];
                    #[trigger] neighbors@[j] == (flat_index(w, n.0, n.1) as usize, n.2)
                },
        decreases 8 - k,
    {
        match neighbor_of(buf, x, y, neighbor_offset(k)) {
            Some((nx, ny)) => {
                let idx = buf.index_of(nx, ny);
                let cell = buf.get(nx, ny);
                if cell.symbol != ' ' {
                    neighbors.push((idx, cell));
                }
            },
            None => {},
        }
        k += 1;
    }
    neighbors
}

/// The neighbours of the cell in column `x` of row `y`, each with its
/// column and row, column by column.
pub fn get_neighbors_by_coords(buf: &Buffer, x: usize, y: usize) -> (neighbors: Vec<(usize, usize, Cell)>)
    requires
        buf.wf(),
    ensures
        neighbors@.len() == neighbors_upto(buf@, buf.width as int, buf.height as int, x as int, y as int, false, 8).len(),
        forall|k: int|
            0 <= k < neighbors@.len() ==> {
                let n = neighbors_upto(buf@, buf.width as int, buf.height as int, x as int, y as int, false, 8)[k];
                #[trigger] neighbors@[k] == (n.0 as usize, n.1 as usize, n.2)
            },
{
    let mut neighbors: Vec<(usize, usize, Cell)> = Vec::new();
    let ghost w = buf.width as int;
    let ghost h = buf.height as int;
    let mut k: usize = 0;
    while k < 8
        invariant
            k <= 8,
            buf.wf(),
            w == buf.width,
            h == buf.height,
            neighbors@.len() == neighbors_upto(buf@, w, h, x as int, y as int, false, k as int).len(),
            forall|j: int|
                0 <= j < neighbors@.len() ==> {
                    let n = neighbors_upto(buf@, w, h, x as int, y as int, false, k as int)[j];
                    #[trigger] neighbors@[j] == (n.0 as usize, n.1 as usize, n.2)
                },
        decreases 8 - k,
    {
        match neighbor_of(buf, x, y, neighbor_offset(k)) {
            Some((nx, ny)) => {
                let cell = buf.get(nx, ny);
                neighbors.push((nx, ny, cell));
            },
            None => {},
        }
        k += 1;
    }
    neighbors
}

fn glider_offset(j: usize) -> (d: (usize, usize))
    requires
        j < 5,
    ensures
        d.0 == glider_part(j as int).0,
        d.1 == glider_part(j as int).1,
{
    if j == 0 {
        (1, 0)
    } else if j == 1 {
        (2, 1)
    } else if j == 2 {
        (0, 2)
    } else if j == 3 {
        (1, 2)
    } else {
        (2, 2)
    }
}

/// Puts a glider, turned by `rotation` degrees, into the three-by-three box
/// at `(x, y)` of a board of `width` by `height` cells.
fn insert_glider(
    cells: &mut Vec<Option<LifeCell>>,
    width: usize,
    height: usize,
    x: usize,
    y: usize,
    rotation: i32,
    current_gen: u8,
)
    requires
        2 <= x,
        x + 2 < width,
        2 <= y,
        y + 2 < height,
        old(cells)@.len() == width * height,
    ensures
        final(cells)@.len() == old(cells)@.len(),
        final(cells)@ == with_glider(old(cells)@, width as int, x as int, y as int, rotation as int, current_gen, 5),
{
    let green_color = 255 - current_gen;
    let mut j: usize = 0;
    while j < 5
        invariant
            j <= 5,
            2 <= x,
            x + 2 < width,
            2 <= y,
            y + 2 < height,
            cells@.len() == width * height,
            green_color == 255 - current_gen,
            cells@ == with_glider(old(cells)@, width as int, x as int, y as int, rotation as int, current_gen, j as int),
        decreases 5 - j,
    {
        let (dx, dy) = glider_offset(j);
        let (gx, gy) = if rotation == 90 {
            (x + dy, y - dx + 2)
        } else if rotation == 180 {
            (x - dx + 2, y - dy + 2)
        } else if rotation == 270 {
            (x - dy, y + dx)
        } else {
            (x + dx, y + dy)
        };
        proof {
            lemma_flat_index_in_range(width as int, height as int, gx as int, gy as int);
            assert(0 <= gy * width) by (nonlinear_arith)
                requires 0 <= gy, 0 <= width;
            assert(cells.len() == width * height);
            assert(gy * width + gx < width * height);
        }
        let index = gy * width + gx;
        cells.set(
            index,
            Some(LifeCell { character: '0', color: Color::Rgb { r: 0, g: green_color, b: 0 } }),
        );
        j += 1;
    }
}

impl View for ConwayLife {
    type V = LifeView;

    closed spec fn view(&self) -> LifeView {
        LifeView {
            options: self.options,
            size: self.screen_size,
            shown: self.buffer@,
            cells: self.cells@,
            generation: self.current_gen,
        }
    }
}

impl ConwayLife {
    /// A board for a screen of the given size, with a star put at random
    /// into a cell as often as the options say.
    pub fn new(options: ConwayLifeOptions, screen_size: (u16, u16)) -> (life: ConwayLife)
        requires
            screen_size.0 >= 1,
            screen_size.1 >= 1,
        ensures
            life.wf(),
            life.fits(),
            life.scene().len() == area(life.size()),
            life@.fresh(screen_size),
            life@.options == options,
    {
        let mut rng = rand::rng();
        assert(screen_size.0 * screen_size.1 <= usize::MAX) by (nonlinear_arith)
            requires screen_size.0 <= 0xffff, screen_size.1 <= 0xffff, usize::MAX >= 0xffff_ffff;
        let buffer = Buffer::new(screen_size.0 as usize, screen_size.1 as usize);
        let mut cells: Vec<Option<LifeCell>> = vec![None; screen_size.0 as usize * screen_size.1 as usize];
        proof {
            lemma_none_living(cells@, cells@.len() as int);
        }
        let mut placed: u32 = 0;
        while placed < options.initial_cells
            invariant
                placed <= options.initial_cells,
                living_upto(cells@, cells@.len() as int) <= placed,
                placed >= 1 ==> living_upto(cells@, cells@.len() as int) >= 1,
                buffer.wf(),
                buffer.width == screen_size.0,
                buffer.height == screen_size.1,
                cells@.len() == screen_size.0 * screen_size.1,
                forall|i: int|
                    0 <= i < cells@.len() ==> (#[trigger] cells@[i] matches Some(cell) ==> cell == LifeCell {
                        character: '*',
                        color: green_of(0),
                    }),
            decreases options.initial_cells - placed,
        {
            let lc = LifeCell::new('*');
            let x = draw(&mut rng, 0, screen_size.0 as usize);
            let y = draw(&mut rng, 0, screen_size.1 as usize);
            let index = buffer.index_of(x, y);
            proof {
                lemma_one_more_living(cells@, index as int, lc, cells@.len() as int);
            }
            cells.set(index, Some(lc));
            placed += 1;
        }
        ConwayLife { screen_size, options, buffer, cells, rng, current_gen: 0 }
    }

    /// Paints the living cells onto the buffer, each in bold.
    pub fn fill_buffer(&mut self, buffer: &mut Buffer)
        requires
            old(self).wf(),
            old(buffer).wf(),
            old(buffer)@.len() == old(self)@.cells.len(),
        ensures
            *final(self) == *old(self),
            final(buffer).wf(),
            final(buffer).width == old(buffer).width,
            final(buffer).height == old(buffer).height,
            forall|i: int|
                0 <= i < old(buffer)@.len() ==> #[trigger] final(buffer)@[i] == match old(self)@.cells[i] {
                    Some(cell) => Cell { symbol: cell.character, color: cell.color, attr: Attribute::Bold },
                    None => old(buffer)@[i],
                },
    {
        let n = self.cells.len();
        let mut i: usize = 0;
        while i < n
            invariant
                i <= n,
                n == self.cells@.len(),
                n == buffer@.len(),
                *self == *old(self),
                buffer.wf(),
                buffer.width == old(buffer).width,
                buffer.height == old(buffer).height,
                forall|k: int|
                    0 <= k < i ==> #[trigger] buffer@[k] == match self.cells@[k] {
                        Some(cell) => Cell { symbol: cell.character, color: cell.color, attr: Attribute::Bold },
                        None => old(buffer)@[k],
                    },
                forall|k: int| i <= k < n ==> #[trigger] buffer@[k] == old(buffer)@[k],
            decreases n - i,
        {
            match self.cells[i] {
                Some(cell) => {
                    proof {
                        lemma_position_in_range(buffer.width as int, buffer.height as int, i as int);
                    }
                    let (x, y) = buffer.pos_of(i);
                    buffer.set(x, y, Cell::new(cell.character, cell.color, Attribute::Bold));
                },
                None => {},
            }
            i += 1;
        }
    }

    /// Number of living cells.
    pub fn population(&self) -> (count: usize)
        ensures
            count == self@.living(),
    {
        let mut count: usize = 0;
        let mut i: usize = 0;
        while i < self.cells.len()
            invariant
                i <= self.cells@.len(),
                count <= i,
                count == living_upto(self.cells@, i as int),
            decreases self.cells@.len() - i,
        {
            if self.cells[i].is_some() {
                count += 1;
            }
            i += 1;
        }
        count
    }

    /// The frame that was handed out last. On a board that was built for
    /// its screen it has the shape of that screen.
    pub fn buffer(&self) -> (buffer: &Buffer)
        ensures
            buffer@ == self@.shown,
            self.wf() && self.fits() ==> buffer.wf() && buffer.width == self@.size.0 && buffer.height
                == self@.size.1,
    {
        &self.buffer
    }

    /// The screen size that the next `reset` builds the board for.
    pub fn get_size(&self) -> (size: (u16, u16))
        ensures
            size == self@.size,
    {
        self.screen_size
    }

    /// The cells of the next generation.
    fn evolve(&mut self, generation: u8) -> (next: Vec<Option<LifeCell>>)
        requires
            old(self).wf(),
            old(self).fits(),
            generation == old(self)@.next_generation(),
        ensures
            final(self).wf(),
            final(self).fits(),
            final(self)@ == old(self)@,
            old(self)@.evolves_to(next@),
    {
        let n = self.cells.len();
        let mut next_cells: Vec<Option<LifeCell>> = Vec::new();
        let mut index: usize = 0;
        while index < n
            invariant
                index <= n,
                n == self.cells@.len(),
                self.wf(),
                self.fits(),
                self@ == old(self)@,
                generation == self@.next_generation(),
                next_cells@.len() == index,
                forall|i: int|
                    0 <= i < index ==> match #[trigger] next_cells@[i] {
                        Some(cell) => self@.lives_on(i) && cell.color == green_of(generation)
                            && life_glyphs().contains(cell.character),
                        None => !self@.lives_on(i),
                    },
            decreases n - index,
        {
            let alive_neighbors = get_neighbors_by_index(&self.buffer, index).len();
            let lives = match self.cells[index] {
                Some(_) => alive_neighbors == 2 || alive_neighbors == 3,
                None => alive_neighbors == 3,
            };
            if lives {
                let mut cell = match self.cells[index] {
                    Some(cell) => cell,
                    None => LifeCell::new('*'),
                };
                cell.update_color_and_char(&mut self.rng, generation);
                next_cells.push(Some(cell));
            } else {
                next_cells.push(None);
            }
            index += 1;
        }
        next_cells
    }
}

impl TerminalEffect for ConwayLife {
    closed spec fn wf(&self) -> bool {
        &&& self.buffer.wf()
        &&& self.buffer.width <= 0xffff
        &&& self.buffer.height <= 0xffff
        &&& self.cells@.len() == self.buffer@.len()
    }

    closed spec fn fits(&self) -> bool {
        self.screen_size.0 == self.buffer.width && self.screen_size.1 == self.buffer.height
    }

    open spec fn size(&self) -> (u16, u16) {
        self@.size
    }

    open spec fn shown(&self) -> Seq<Cell> {
        self@.shown
    }

    open spec fn scene(&self) -> Seq<Cell> {
        self@.scene()
    }

    open spec fn finished(&self) -> bool {
        false
    }



    /// The difference between the frame handed out last and the frame that
    /// shows the living cells.
    fn get_diff(&mut self) -> (diff: Vec<Change>)
        ensures
            final(self)@ == (LifeView { shown: old(self)@.scene(), ..old(self)@ }),
    {
        proof {
            assert(self.screen_size.0 * self.screen_size.1 <= usize::MAX) by (nonlinear_arith)
                requires self.screen_size.0 <= 0xffff, self.screen_size.1 <= 0xffff, usize::MAX >= 0xffff_ffff;
        }
        let mut curr_buffer = Buffer::new(self.screen_size.0 as usize, self.screen_size.1 as usize);
        self.fill_buffer(&mut curr_buffer);
        assert(curr_buffer@ =~= old(self)@.scene());
        let diff = self.buffer.diff(&curr_buffer);
        self.buffer = curr_buffer;
        diff
    }

    /// Leads the board into the next generation and drops gliders onto it.
    fn update(&mut self)
        ensures
            old(self)@.ticks_to(final(self)@),
    {
        let generation = ((self.current_gen as u16 + 1) % 255) as u8;
        let mut next_cells = self.evolve(generation);
        let ghost evolved = next_cells@;
        let ghost mut gliders: Seq<Glider> = Seq::empty();
        let width = self.buffer.width;
        let height = self.buffer.height;
        if width >= 5 && height >= 5 {
            let mut dropped: usize = 0;
            while dropped < 9
                invariant
                    dropped <= 9,
                    width == self.buffer.width,
                    height == self.buffer.height,
                    width >= 5,
                    height >= 5,
                    self.wf(),
                    self.fits(),
                    self@ == old(self)@,
                    gliders.len() == dropped,
                    next_cells@.len() == width * height,
                    forall|k: int| 0 <= k < gliders.len() ==> glider_fits(#[trigger] gliders[k], width as int, height as int),
                    next_cells@ == with_gliders(evolved, width as int, gliders, generation, dropped as int),
                decreases 9 - dropped,
            {
                let x = draw(&mut self.rng, 2, width - 2);
                let y = draw(&mut self.rng, 2, height - 2);
                let turns = draw(&mut self.rng, 0, 4);
                let rotation = 90 * turns as i32;
                let ghost previous = gliders;
                proof {
                    gliders = gliders.push(Glider { x: x as int, y: y as int, turns: turns as int });
                    lemma_with_gliders_prefix(evolved, width as int, previous, gliders, generation, dropped as int);
                }
                insert_glider(&mut next_cells, width, height, x, y, rotation, generation);
                dropped += 1;
            }
        }
        self.cells = next_cells;
        self.current_gen = generation;
        proof {
            assert(old(self)@.evolves_to(evolved));
            assert(self@.cells == with_gliders(
                evolved,
                old(self)@.width(),
                gliders,
                old(self)@.next_generation(),
                gliders.len() as int,
            ));
        }
    }

    fn update_size(&mut self, width: u16, height: u16)
        ensures
            final(self)@ == (LifeView { size: (width, height), ..old(self)@ }),
    {
        self.screen_size = (width, height);
    }

    /// Builds the board anew for the stored screen size, from the options
    /// that it was built from.
    fn reset(&mut self)
        ensures
            final(self)@.fresh(old(self)@.size),
            final(self)@.options == old(self)@.options,
    {
        let new_effect = ConwayLife::new(self.options, self.screen_size);
        *self = new_effect;
    }
}

/// The first gliders of a longer list are put onto the board as they are of
/// the list itself.
proof fn lemma_with_gliders_prefix(
    cells: Seq<Option<LifeCell>>,
    width: int,
    short: Seq<Glider>,
    long: Seq<Glider>,
    generation: u8,
    n: int,
)
    requires
        0 <= n <= short.len() <= long.len(),
        forall|k: int| 0 <= k < short.len() ==> short[k] == long[k],
    ensures
        with_gliders(cells, width, short, generation, n) == with_gliders(cells, width, long, generation, n),
    decreases n,
{
    if n > 0 {
        lemma_with_gliders_prefix(cells, width, short, long, generation, n - 1);
    }
}

} // verus!
