//! A maze that carves itself, two cells at a time, into a wall of glyphs.

use vstd::prelude::*;
use rand::rngs::ThreadRng;
use std::collections::VecDeque;
use crate::buffer::{
    changes, flat_index, lemma_flat_index_in_range, lemma_position_in_range, lemma_repaint_length, marked_upto,
    uniform, Buffer, Cell, Change,
};
use crate::effect::{area, TerminalEffect};
use crate::glyphs::{random_wall_glyph, wall_glyphs};
use crate::random::{draw, shuffled_indices};
use crate::style::{Attribute, Color};

verus! {

/// `Maze` takes no options.
#[derive(Clone, Copy, Debug, Default)]
pub struct MazeOptions {}

pub struct Maze {
    pub screen_size: (u16, u16),
    options: MazeOptions,
    buffer: Buffer,
    initial_walls: Buffer,
    /// For each cell, row by row, whether a path was carved into it.
    paths: Vec<bool>,
    stack: VecDeque<(isize, isize)>,
    maze_complete: bool,
    pub rng: ThreadRng,
}

/// A maze as a plain value.
pub struct MazeView {
    pub size: (u16, u16),
    pub shown: Seq<Cell>,
    pub walls: Seq<Cell>,
    pub carved: Seq<bool>,
    pub stack: Seq<(isize, isize)>,
    pub complete: bool,
}

/// The cell of a carved path: a solid white block.
pub open spec fn path_cell() -> Cell {
    Cell { symbol: '\u{2588}', color: Color::White, attr: Attribute::Reset }
}

/// A cell of the wall: a bold wall glyph in a colour with some green, and
/// red and blue below 200.
pub open spec fn is_wall(cell: Cell) -> bool {
    &&& wall_glyphs().contains(cell.symbol)
    &&& cell.attr == Attribute::Bold
    &&& cell.color matches Color::Rgb { r, g, b } && r < 200 && b < 200
}

pub open spec fn all_walls(cells: Seq<Cell>) -> bool {
    forall|i: int| 0 <= i < cells.len() ==> is_wall(#[trigger] cells[i])
}

/// The four ways out of a cell, each two cells long: right, down, left, up.
pub open spec fn way(k: int) -> (int, int) {
    if k == 0 {
        (2, 0)
    } else if k == 1 {
        (0, 2)
    } else if k == 2 {
        (-2, 0)
    } else {
        (0, -2)
    }
}

/// The first step of each way.
pub open spec fn half_way(k: int) -> (int, int) {
    if k == 0 {
        (1, 0)
    } else if k == 1 {
        (0, 1)
    } else if k == 2 {
        (-1, 0)
    } else {
        (0, -1)
    }
}

/// The two frames are of one length and differ in the cells `a`, `b` and `c`
/// at most.
pub open spec fn differ_at_most_at(before: Seq<Cell>, after: Seq<Cell>, a: int, b: int, c: int) -> bool {
    &&& after.len() == before.len()
    &&& forall|i: int| 0 <= i < before.len() && i != a && i != b && i != c ==> #[trigger] after[i] == before[i]
}

impl MazeView {
    pub open spec fn width(self) -> int {
        self.size.0 as int
    }

    pub open spec fn height(self) -> int {
        self.size.1 as int
    }

    /// The position lies on the screen.
    pub open spec fn valid(self, x: int, y: int) -> bool {
        0 <= x < self.width() && 0 <= y < self.height()
    }

    pub open spec fn is_path(self, x: int, y: int) -> bool {
        self.carved[flat_index(self.width(), x, y)]
    }

    /// Way `k` out of the cell is open: it ends on the screen, in a cell
    /// that is not carved yet.
    pub open spec fn open_way(self, x: int, y: int, k: int) -> bool {
        &&& self.valid(x + way(k).0, y + way(k).1)
        &&& self.valid(x + half_way(k).0, y + half_way(k).1)
        &&& !self.is_path(x + way(k).0, y + way(k).1)
    }

    /// The carved cells after way `k` out of the cell was taken.
    pub open spec fn carved_along(self, x: int, y: int, k: int) -> Seq<bool> {
        self.carved.update(flat_index(self.width(), x + way(k).0, y + way(k).1), true).update(
            flat_index(self.width(), x + half_way(k).0, y + half_way(k).1),
            true,
        )
    }

    /// The frame that the maze wants on the screen: the wall, with a solid
    /// block in each carved cell.
    pub open spec fn scene(self) -> Seq<Cell> {
        Seq::new(
            self.walls.len(),
            |i: int|
                if self.carved[i] {
                    path_cell()
                } else {
                    self.walls[i]
                },
        )
    }

    /// The maze as it is built: nothing shown, nothing carved, and one
    /// cell of the screen to start from.
    pub open spec fn fresh(self, size: (u16, u16)) -> bool {
        &&& self.size == size
        &&& self.shown == uniform(area(size), Cell::blank())
        &&& self.walls.len() == area(size)
        &&& all_walls(self.walls)
        &&& self.carved == Seq::new(area(size), |i: int| false)
        &&& self.stack.len() == 1
        &&& self.valid(self.stack[0].0 as int, self.stack[0].1 as int)
        &&& !self.complete
    }

    /// What one tick may lead to. A complete maze stays as it is. Else the
    /// maze is carved one step further, and up to three cells of the wall
    /// are changed for other wall cells.
    pub open spec fn ticks_to(self, next: MazeView) -> bool {
        if self.complete {
            next == self
        } else {
            exists|spots: (int, int, int)|
                {
                    &&& #[trigger] differ_at_most_at(self.walls, next.walls, spots.0, spots.1, spots.2)
                    &&& all_walls(next.walls)
                    &&& self.carves_to(MazeView { walls: self.walls, ..next })
                }
        }
    }

    /// What one step of carving may lead to. With nowhere left to go back
    /// to, the maze is complete. Else the cell on top of the stack is looked
    /// at: one of its open ways is carved, and the cell and the end of the
    /// way are put on the stack; or, with no way open, the cell and the one
    /// below it leave the stack.
    pub open spec fn carves_to(self, next: MazeView) -> bool {
        if self.complete {
            next == self
        } else if self.stack.len() == 0 {
            next == (MazeView { complete: true, ..self })
        } else {
            let top = self.stack.last();
            let x = top.0 as int;
            let y = top.1 as int;
            if forall|k: int| 0 <= k < 4 ==> !self.open_way(x, y, k) {
                next == (MazeView {
                    stack: if self.stack.len() >= 2 {
                        self.stack.subrange(0, self.stack.len() - 2)
                    } else {
                        Seq::empty()
                    },
                    ..self
                })
            } else {
                exists|k: int|
                    0 <= k < 4 && #[trigger] self.open_way(x, y, k) && next == (MazeView {
                        carved: self.carved_along(x, y, k),
                        stack: self.stack.push(((x + way(k).0) as isize, (y + way(k).1) as isize)),
                        ..self
                    })
            }
        }
    }
}

fn step(k: usize) -> (d: (isize, isize))
    requires
        k < 4,
    ensures
        d.0 == way(k as int).0,
        d.1 == way(k as int).1,
{
    if k == 0 {
        (2, 0)
    } else if k == 1 {
        (0, 2)
    } else if k == 2 {
        (-2, 0)
    } else {
        (0, -2)
    }
}

fn half_step(k: usize) -> (d: (isize, isize))
    requires
        k < 4,
    ensures
        d.0 == half_way(k as int).0,
        d.1 == half_way(k as int).1,
{
    if k == 0 {
        (1, 0)
    } else if k == 1 {
        (0, 1)
    } else if k == 2 {
        (-1, 0)
    } else {
        (0, -1)
    }
}

/// A wall cell picked at random, with red and blue below `tint`.
fn random_wall(rng: &mut ThreadRng, tint: usize) -> (cell: Cell)
    requires
        1 <= tint <= 200,
    ensures
        is_wall(cell),
{
    let random_char = random_wall_glyph(rng);
    let random_color = Color::Rgb {
        r: draw(rng, 0, tint) as u8,
        g: draw(rng, 0, 256) as u8,
        b: draw(rng, 0, tint) as u8,
    };
    Cell::new(random_char, random_color, Attribute::Bold)
}

/// Fills the buffer with wall cells picked at random.
fn fill_initial_walls(buffer: &mut Buffer)
    requires
        old(buffer).wf(),
    ensures
        final(buffer).wf(),
        final(buffer).width == old(buffer).width,
        final(buffer).height == old(buffer).height,
        all_walls(final(buffer)@),
{
    let mut rng = rand::rng();
    let ghost width = buffer.width as int;
    let mut y: usize = 0;
    let ghost mut done: int = 0;
    while y < buffer.height
        invariant
            y <= buffer.height,
            buffer.wf(),
            buffer.width == width,
            buffer.height == old(buffer).height,
            buffer.width == old(buffer).width,
            done == y * width,
            forall|i: int| 0 <= i < done ==> is_wall(#[trigger] buffer@[i]),
        decreases buffer.height - y,
    {
        let mut x: usize = 0;
        while x < buffer.width
            invariant
                x <= buffer.width,
                y < buffer.height,
                buffer.wf(),
                buffer.width == width,
                buffer.height == old(buffer).height,
                buffer.width == old(buffer).width,
                done == y * width + x,
                forall|i: int| 0 <= i < done ==> is_wall(#[trigger] buffer@[i]),
            decreases buffer.width - x,
        {
            let cell = random_wall(&mut rng, 120);
            buffer.set(x, y, cell);
            proof {
                lemma_flat_index_in_range(width, buffer.height as int, x as int, y as int);
                assert(flat_index(width, x as int, y as int) == done);
                done = done + 1;
            }
            x += 1;
        }
        assert((y + 1) * width == y * width + width) by (nonlinear_arith);
        y += 1;
    }
    assert(done == buffer@.len()) by (nonlinear_arith)
        requires done == y * width, y == buffer.height, buffer@.len() == buffer.width * buffer.height, width == buffer.width;
}

impl View for Maze {
    type V = MazeView;

    closed spec fn view(&self) -> MazeView {
        MazeView {
            size: self.screen_size,
            shown: self.buffer@,
            walls: self.initial_walls@,
            carved: self.paths@,
            stack: self.stack@,
            complete: self.maze_complete,
        }
    }
}

impl Maze {
    /// A maze for a screen of the given size, with a wall of glyphs picked
    /// at random and a cell picked at random to start from.
    pub fn new(options: MazeOptions, screen_size: (u16, u16)) -> (maze: Maze)
        requires
            screen_size.0 >= 1,
            screen_size.1 >= 1,
        ensures
            maze.wf(),
            maze.fits(),
            maze.scene().len() == area(maze.size()),
            maze@.fresh(screen_size),
    {
        let mut rng = rand::rng();
        assert(screen_size.0 * screen_size.1 <= usize::MAX) by (nonlinear_arith)
            requires screen_size.0 <= 0xffff, screen_size.1 <= 0xffff, usize::MAX >= 0xffff_ffff;
        let buffer = Buffer::new(screen_size.0 as usize, screen_size.1 as usize);
        let paths = vec![false; screen_size.0 as usize * screen_size.1 as usize];
        assert(paths@ =~= Seq::new(area(screen_size), |i: int| false));
        let start_x = draw(&mut rng, 0, screen_size.0 as usize);
        let start_y = draw(&mut rng, 0, screen_size.1 as usize);
        let mut stack: VecDeque<(isize, isize)> = VecDeque::new();
        stack.push_back((start_x as isize, start_y as isize));
        let mut initial_walls = buffer.clone();
        fill_initial_walls(&mut initial_walls);
        Maze { screen_size, options, buffer, initial_walls, paths, stack, maze_complete: false, rng }
    }

    fn is_valid_cell(&self, x: isize, y: isize) -> (valid: bool)
        ensures
            valid == self@.valid(x as int, y as int),
    {
        x >= 0 && y >= 0 && (x as usize) < (self.screen_size.0 as usize) && (y as usize) < (
        self.screen_size.1 as usize)
    }

    fn is_path(&self, x: isize, y: isize) -> (carved: bool)
        requires
            self.wf(),
            self.fits(),
            self@.valid(x as int, y as int),
        ensures
            carved == self@.is_path(x as int, y as int),
    {
        proof {
            lemma_flat_index_in_range(self@.width(), self@.height(), x as int, y as int);
        }
        let index = self.buffer.index_of(x as usize, y as usize);
        self.paths[index]
    }

    fn carve_path(&mut self, x: isize, y: isize)
        requires
            old(self).wf(),
            old(self).fits(),
            old(self)@.valid(x as int, y as int),
        ensures
            final(self).wf(),
            final(self).fits(),
            final(self)@ == (MazeView {
                carved: old(self)@.carved.update(flat_index(old(self)@.width(), x as int, y as int), true),
                ..old(self)@
            }),
    {
        proof {
            lemma_flat_index_in_range(self@.width(), self@.height(), x as int, y as int);
        }
        let index = self.buffer.index_of(x as usize, y as usize);
        self.paths.set(index, true);
    }

    fn is_open_way(&self, x: isize, y: isize, k: usize) -> (open: bool)
        requires
            self.wf(),
            self.fits(),
            self@.valid(x as int, y as int),
            k < 4,
        ensures
            open == self@.open_way(x as int, y as int, k as int),
    {
        let (dx, dy) = step(k);
        let (hx, hy) = half_step(k);
        self.is_valid_cell(x + dx, y + dy) && self.is_valid_cell(x + hx, y + hy) && !self.is_path(
            x + dx,
            y + dy,
        )
    }

    /// The frame that was handed out last. In a maze that was built for its
    /// screen it has the shape of that screen.
    pub fn buffer(&self) -> (buffer: &Buffer)
        ensures
            buffer@ == self@.shown,
            self.wf() && self.fits() ==> buffer.wf() && buffer.width == self@.size.0 && buffer.height
                == self@.size.1,
    {
        &self.buffer
    }

    /// The wall that the paths are carved into. In a maze that was built
    /// for its screen it has the shape of that screen.
    pub fn initial_walls(&self) -> (walls: &Buffer)
        ensures
            walls@ == self@.walls,
            self.wf() && self.fits() ==> walls.wf() && walls.width == self@.size.0 && walls.height
                == self@.size.1,
    {
        &self.initial_walls
    }

    /// The screen size that the next `reset` builds the maze for.
    pub fn get_size(&self) -> (size: (u16, u16))
        ensures
            size == self@.size,
    {
        self.screen_size
    }

    /// Column and row of each carved cell, row by row: each carved cell
    /// once, and no other.
    pub fn paths(&self) -> (cells: Vec<(usize, usize)>)
        requires
            self.wf(),
            self.fits(),
        ensures
            forall|k: int|
                0 <= k < cells@.len() ==> self@.valid((#[trigger] cells@[k]).0 as int, cells@[k].1 as int)
                    && self@.is_path(cells@[k].0 as int, cells@[k].1 as int),
            forall|j: int, k: int|
                0 <= j < k < cells@.len() ==> place(self@.width(), #[trigger] cells@[j]) < place(
                    self@.width(),
                    #[trigger] cells@[k],
                ),
            forall|x: int, y: int|
                self@.valid(x, y) && #[trigger] self@.is_path(x, y) ==> cells@.contains((x as usize, y as usize)),
            cells@.len() == carved_count(self@.carved, self@.carved.len() as int),
    {
        let mut cells: Vec<(usize, usize)> = Vec::new();
        let ghost width = self.initial_walls.width as int;
        let ghost height = self.initial_walls.height as int;
        let mut i: usize = 0;
        while i < self.paths.len()
            invariant
                i <= self.paths@.len(),
                self.wf(),
                self.fits(),
                width == self@.width(),
                height == self@.height(),
                width == self.initial_walls.width,
                height == self.initial_walls.height,
                cells@.len() == carved_count(self.paths@, i as int),
                forall|k: int|
                    0 <= k < cells@.len() ==> self@.valid((#[trigger] cells@[k]).0 as int, cells@[k].1 as int)
                        && self@.is_path(cells@[k].0 as int, cells@[k].1 as int) && place(width, cells@[k]) < i,
                forall|j: int, k: int|
                    0 <= j < k < cells@.len() ==> place(width, #[trigger] cells@[j]) < place(
                        width,
                        #[trigger] cells@[k],
                    ),
                forall|m: int|
                    0 <= m < i && #[trigger] self.paths@[m] ==> cells@.contains(
                        ((m % width) as usize, (m / width) as usize),
                    ),
            decreases self.paths@.len() - i,
        {
            proof {
                lemma_position_in_range(width, height, i as int);
            }
            if self.paths[i] {
                let ghost before = cells@;
                let cell = self.initial_walls.pos_of(i);
                cells.push(cell);
                proof {
                    assert(cells@[before.len() as int] == cell);
                    assert forall|m: int| 0 <= m < i + 1 && #[trigger] self.paths@[m] implies cells@.contains(
                        ((m % width) as usize, (m / width) as usize),
                    ) by {
                        if m < i {
                            let k = choose|k: int|
                                0 <= k < before.len() && before[k] == ((m % width) as usize, (m / width) as usize);
                            assert(cells@[k] == before[k]);
                        }
                    }
                }
            }
            i += 1;
        }
        proof {
            assert forall|x: int, y: int| self@.valid(x, y) && #[trigger] self@.is_path(x, y) implies cells@.contains(
                (x as usize, y as usize),
            ) by {
                lemma_flat_index_in_range(width, height, x, y);
                assert(self.paths@[flat_index(width, x, y)]);
            }
        }
        cells
    }

    /// Number of cells that wait on the stack.
    pub fn stack_len(&self) -> (len: usize)
        ensures
            len == self@.stack.len(),
    {
        self.stack.len()
    }

    pub fn is_complete(&self) -> (complete: bool)
        ensures
            complete == self@.complete,
    {
        self.maze_complete
    }

    pub fn default_options(_width: u16, _height: u16) -> MazeOptions {
        MazeOptions {  }
    }

    /// Carves the maze one step further.
    fn carve(&mut self)
        requires
            old(self).wf(),
            old(self).fits(),
            !old(self)@.complete,
        ensures
            final(self).wf(),
            final(self).fits(),
            old(self)@.carves_to(final(self)@),
    {
        match self.stack.pop_back() {
            Some((x, y)) => {
                let ghost before = self@;
                assert(self.stack@ =~= old(self).stack@.drop_last());
                let order = shuffled_indices(&mut self.rng, 4);
                let mut moved = false;
                let mut tried: usize = 0;
                while tried < 4 && !moved
                    invariant
                        tried <= 4,
                        order@.len() == 4,
                        forall|k: int| 0 <= k < 4 ==> order@[k] < 4,
                        forall|i: usize| i < 4 ==> order@.contains(i),
                        self.wf(),
                        self.fits(),
                        old(self).wf(),
                        old(self).fits(),
                        !old(self)@.complete,
                        old(self).stack@.len() > 0,
                        (x, y) == old(self).stack@.last(),
                        old(self)@.valid(x as int, y as int),
                        !moved ==> self@ == (MazeView { stack: old(self)@.stack.drop_last(), ..old(self)@ }),
                        !moved ==> forall|k: int|
                            0 <= k < tried ==> !old(self)@.open_way(x as int, y as int, #[trigger] order@[k] as int),
                        moved ==> old(self)@.carves_to(self@),
                    decreases 4 - tried + if moved { 0int } else { 1int },
                {
                    let k = order[tried];
                    if self.is_open_way(x, y, k) {
                        let (dx, dy) = step(k);
                        let (hx, hy) = half_step(k);
                        let new_x = x + dx;
                        let new_y = y + dy;
                        self.carve_path(new_x, new_y);
                        self.carve_path(x + hx, y + hy);
                        self.stack.push_back((x, y));
                        self.stack.push_back((new_x, new_y));
                        moved = true;
                        proof {
                            assert(old(self)@.stack.drop_last().push((x, y)) =~= old(self)@.stack);
                            assert(old(self)@.open_way(x as int, y as int, k as int));
                        }
                    } else {
                        tried += 1;
                    }
                }
                if !moved {
                    let _ = self.stack.pop_back();
                    proof {
                        assert forall|k: int| 0 <= k < 4 implies !old(self)@.open_way(x as int, y as int, k) by {
                            let j = choose|j: int| 0 <= j < 4 && order@[j] == k as usize;
                            assert(order@.contains(k as usize));
                        }
                        if old(self)@.stack.len() >= 2 {
                            assert(self.stack@ =~= old(self)@.stack.subrange(0, old(self)@.stack.len() - 2));
                        } else {
                            assert(self.stack@ =~= Seq::<(isize, isize)>::empty());
                        }
                    }
                }
            },
            None => {
                self.maze_complete = true;
            },
        }
    }

    /// Puts a new wall cell, picked at random, into up to three cells of the
    /// wall, picked at random.
    fn glitter(&mut self)
        requires
            old(self).wf(),
            old(self).fits(),
        ensures
            final(self).wf(),
            final(self).fits(),
            exists|spots: (int, int, int)|
                final(self)@ == (MazeView { walls: final(self)@.walls, ..old(self)@ }) && all_walls(
                    final(self)@.walls,
                ) && #[trigger] differ_at_most_at(
                    old(self)@.walls,
                    final(self)@.walls,
                    spots.0,
                    spots.1,
                    spots.2,
                ),
    {
        let mut modified_cells: Vec<usize> = Vec::new();
        let mut attempts: usize = 0;
        let ghost mut a: int = -1;
        let ghost mut b: int = -1;
        let ghost mut c: int = -1;
        while modified_cells.len() < 3 && attempts < 64
            invariant
                attempts <= 64,
                modified_cells@.len() <= 3,
                self.wf(),
                self.fits(),
                self@ == (MazeView { walls: self@.walls, ..old(self)@ }),
                all_walls(self@.walls),
                modified_cells@.len() == 0 ==> a == -1 && b == -1 && c == -1,
                modified_cells@.len() == 1 ==> a == modified_cells@[0] && b == -1 && c == -1,
                modified_cells@.len() == 2 ==> a == modified_cells@[0] && b == modified_cells@[1] && c == -1,
                modified_cells@.len() == 3 ==> a == modified_cells@[0] && b == modified_cells@[1] && c
                    == modified_cells@[2],
                differ_at_most_at(old(self)@.walls, self@.walls, a, b, c),
            decreases 64 - attempts,
        {
            attempts += 1;
            let x = draw(&mut self.rng, 0, self.initial_walls.width);
            let y = draw(&mut self.rng, 0, self.initial_walls.height);
            let index = self.initial_walls.index_of(x, y);
            if !contains(&modified_cells, index) {
                modified_cells.push(index);
                proof {
                    if modified_cells@.len() == 1 {
                        a = index as int;
                    } else if modified_cells@.len() == 2 {
                        b = index as int;
                    } else {
                        c = index as int;
                    }
                }
                let cell = random_wall(&mut self.rng, 200);
                self.initial_walls.set(x, y, cell);
            }
        }
        assert(differ_at_most_at(old(self)@.walls, self@.walls, (a, b, c).0, (a, b, c).1, (a, b, c).2));
    }
}

/// The flat index of a cell given by its column and row.
pub open spec fn place(width: int, cell: (usize, usize)) -> int {
    flat_index(width, cell.0 as int, cell.1 as int)
}

/// Number of carved cells among the first `n`.
pub open spec fn carved_count(carved: Seq<bool>, n: int) -> nat
    decreases n,
{
    if n <= 0 {
        0
    } else if carved[n - 1] {
        carved_count(carved, n - 1) + 1
    } else {
        carved_count(carved, n - 1)
    }
}

fn contains(items: &Vec<usize>, item: usize) -> (found: bool)
    ensures
        found == items@.contains(item),
{
    let mut i: usize = 0;
    while i < items.len()
        invariant
            i <= items@.len(),
            forall|k: int| 0 <= k < i ==> items@[k] != item,
        decreases items@.len() - i,
    {
        if items[i] == item {
            return true;
        }
        i += 1;
    }
    false
}

/// No cell of the scene of a maze is blank, so that painting the scene onto
/// a blank screen takes a change for every cell.
pub proof fn lemma_maze_repaints_all(maze: MazeView)
    requires
        all_walls(maze.walls),
    ensures
        changes(uniform(maze.walls.len(), Cell::blank()), maze.scene(), maze.width()).len() == maze.walls.len(),
{
    lemma_repaint_length(maze.scene(), maze.width());
    lemma_all_marked(maze.scene(), maze.scene().len() as int);
}

proof fn lemma_all_marked(frame: Seq<Cell>, n: int)
    requires
        0 <= n <= frame.len(),
        forall|i: int| 0 <= i < frame.len() ==> #[trigger] frame[i] != Cell::blank(),
    ensures
        marked_upto(frame, n) == n,
    decreases n,
{
    if n > 0 {
        lemma_all_marked(frame, n - 1);
    }
}

impl TerminalEffect for Maze {
    closed spec fn wf(&self) -> bool {
        &&& self.buffer.wf()
        &&& self.initial_walls.wf()
        &&& self.buffer.same_shape(&self.initial_walls)
        &&& self.buffer.width <= 0xffff
        &&& self.buffer.height <= 0xffff
        &&& self.paths@.len() == self.buffer@.len()
        &&& all_walls(self.initial_walls@)
        &&& forall|k: int|
            0 <= k < self.stack@.len() ==> 0 <= (#[trigger] self.stack@[k]).0 < self.buffer.width && 0
                <= self.stack@[k].1 < self.buffer.height
    }

    closed spec fn fits(&self) -> bool {
        self.screen_size.0 == self.buffer.width && self.screen_size.1 == self.buffer.height
    }

    open spec fn size(&self) -> (u16, u16) {
        self@.size
    }

    open spec fn shown(&self) -> Seq<Cell> {
        self@.shown
    }

    open spec fn scene(&self) -> Seq<Cell> {
        self@.scene()
    }

    open spec fn finished(&self) -> bool {
        self@.complete
    }



    /// The difference between the frame handed out last and the wall with
    /// the paths carved so far. A complete maze is built anew instead, and
    /// nothing is handed out.
    fn get_diff(&mut self) -> (diff: Vec<Change>)
        ensures
            old(self)@.complete ==> final(self)@.fresh(old(self)@.size),
            !old(self)@.complete ==> final(self)@ == (MazeView { shown: old(self)@.scene(), ..old(self)@ }),
    {
        if self.maze_complete {
            self.reset();
            return Vec::new();
        }
        let mut curr_buffer = self.initial_walls.clone();
        let n = self.paths.len();
        let mut i: usize = 0;
        while i < n
            invariant
                i <= n,
                n == self.paths@.len(),
                self.wf(),
                *self == *old(self),
                curr_buffer.wf(),
                curr_buffer.same_shape(&self.buffer),
                curr_buffer@.len() == n,
                self.initial_walls@.len() == n,
                forall|k: int|
                    0 <= k < i ==> curr_buffer@[k] == if self.paths@[k] {
                        path_cell()
                    } else {
                        self.initial_walls@[k]
                    },
                forall|k: int| i <= k < n ==> curr_buffer@[k] == self.initial_walls@[k],
            decreases n - i,
        {
            if self.paths[i] {
                proof {
                    lemma_position_in_range(curr_buffer.width as int, curr_buffer.height as int, i as int);
                }
                let (x, y) = curr_buffer.pos_of(i);
                curr_buffer.set(x, y, Cell::new('\u{2588}', Color::White, Attribute::Reset));
            }
            i += 1;
        }
        assert(curr_buffer@ =~= old(self)@.scene());
        let diff = self.buffer.diff(&curr_buffer);
        self.buffer = curr_buffer;
        diff
    }

    /// Carves the maze one step further and lets the wall glitter: up to
    /// three of its cells are changed for other wall cells.
    fn update(&mut self)
        ensures
            old(self)@.ticks_to(final(self)@),
    {
        if self.maze_complete {
            return;
        }
        self.carve();
        let ghost carved = self@;
        self.glitter();
        proof {
            let spots = choose|spots: (int, int, int)|
                self@ == (MazeView { walls: self@.walls, ..carved }) && all_walls(self@.walls)
                    && #[trigger] differ_at_most_at(carved.walls, self@.walls, spots.0, spots.1, spots.2);
            assert(differ_at_most_at(old(self)@.walls, self@.walls, spots.0, spots.1, spots.2));
            assert((MazeView { walls: old(self)@.walls, ..self@ }) == carved);
        }
    }

    fn update_size(&mut self, width: u16, height: u16)
        ensures
            final(self)@ == (MazeView { size: (width, height), ..old(self)@ }),
    {
        self.screen_size = (width, height);
    }

    /// Builds the maze anew for the stored screen size.
    fn reset(&mut self)
        ensures
            final(self)@.fresh(old(self)@.size),
    {
        let new_effect = Maze::new(self.options, self.screen_size);
        *self = new_effect;
    }
}

} // verus!
