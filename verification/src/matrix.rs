//! The first digital rain: worms of glyphs that crawl down the screen, drawn
//! with commands for the terminal.

use vstd::prelude::*;
use rand::rngs::ThreadRng;
use crate::matrix::charworm::{VerticalWorm, VerticalWormStyle, WormView};
use crate::matrix::grid::{map_cells, map_fill, map_get, map_index, map_set, map_shape, map_zeros, WormMap};
use crate::order::{lemma_sorted_members, sort_by_rank, sorted_by_rank};
use crate::rain::rain_drop::head_row;
use crate::random::chance;

pub mod charworm;
pub mod grid;
pub mod matrix;

verus! {

/// No more worms than this crawl at a time.
pub const MAX_WORMS: usize = 600;

/// A command for the terminal.
#[derive(Debug, Clone, Copy, PartialEq, Eq, Structural)]
pub enum QueueItems {
    /// Move the cursor to this column and row.
    MoveTo(u16, u16),
    /// Print the glyph as the style of the worm and the position in its
    /// body ask for.
    PrintChar(VerticalWormStyle, u16, char),
    /// Print a space.
    ClearChar,
}

pub struct Matrix {
    screen_width: u16,
    screen_height: u16,
    worms: Vec<VerticalWorm>,
    map: WormMap,
    rng: ThreadRng,
}

/// The map after a worm laid claim to the cells under the first `n` places
/// behind its head, its head first, as far as they lie on the map.
pub open spec fn claimed(cells: Seq<usize>, width: int, height: int, worm: WormView, n: int) -> Seq<usize>
    decreases n,
{
    if n <= 0 {
        cells
    } else {
        let before = claimed(cells, width, height, worm, n - 1);
        let x = head_row(worm.fx as int);
        let y = head_row(worm.fy as int) - (n - 1);
        if x < width && 0 <= y < height {
            before.update(map_index(height, x, y), worm.worm_id)
        } else {
            before
        }
    }
}

/// The map after the first `k` worms laid claim to their cells, one after
/// the other: each to as many places as its body is long or, without
/// `by_body`, as there are worms.
pub open spec fn claimed_by(
    cells: Seq<usize>,
    width: int,
    height: int,
    worms: Seq<VerticalWorm>,
    by_body: bool,
    k: int,
) -> Seq<usize>
    decreases k,
{
    if k <= 0 {
        cells
    } else {
        claimed(
            claimed_by(cells, width, height, worms, by_body, k - 1),
            width,
            height,
            worms[k - 1]@,
            if by_body {
                worms[k - 1]@.body.len() as int
            } else {
                worms.len() as int
            },
        )
    }
}

/// The commands that clear those of the first `n` cells of the map that no
/// worm owns.
pub open spec fn clears(cells: Seq<usize>, height: int, n: int) -> Seq<QueueItems>
    decreases n,
{
    if n <= 0 {
        Seq::empty()
    } else if cells[n - 1] == 0 {
        clears(cells, height, n - 1).push(
            QueueItems::MoveTo(((n - 1) / height) as u16, ((n - 1) % height) as u16),
        ).push(QueueItems::ClearChar)
    } else {
        clears(cells, height, n - 1)
    }
}

/// The commands that print the first `n` glyphs of a worm, from the head
/// upwards, as far as the worm owns the cells under them.
pub open spec fn prints(cells: Seq<usize>, width: int, height: int, worm: WormView, n: int) -> Seq<QueueItems>
    decreases n,
{
    if n <= 0 {
        Seq::empty()
    } else {
        let before = prints(cells, width, height, worm, n - 1);
        let x = head_row(worm.fx as int);
        let y = head_row(worm.fy as int) - (n - 1);
        if x < width && 0 <= y < height && cells[map_index(height, x, y)] == worm.worm_id {
            before.push(QueueItems::MoveTo(x as u16, y as u16)).push(
                QueueItems::PrintChar(worm.vw_style, ((n - 1) % 0x1_0000) as u16, worm.body[n - 1]),
            )
        } else {
            before
        }
    }
}

/// The commands that print the first `k` worms whose head is on the screen.
pub open spec fn prints_all(cells: Seq<usize>, width: int, height: int, worms: Seq<VerticalWorm>, k: int) -> Seq<
    QueueItems,
>
    decreases k,
{
    if k <= 0 {
        Seq::empty()
    } else if head_row(worms[k - 1]@.fy as int) < height {
        prints_all(cells, width, height, worms, k - 1) + prints(
            cells,
            width,
            height,
            worms[k - 1]@,
            worms[k - 1]@.body.len() as int,
        )
    } else {
        prints_all(cells, width, height, worms, k - 1)
    }
}

/// Each of the worms was just made for a screen of the given size, and they
/// are numbered from 1.
pub open spec fn newly_made_all(worms: Seq<VerticalWorm>, width: int, height: int) -> bool {
    forall|k: int|
        0 <= k < worms.len() ==> (#[trigger] worms[k])@.newly_made(width, height) && worms[k].worm_id == k + 1
}

/// `after` holds the worms of `before`, each moved on by one tick, and
/// behind them perhaps one worm that was just made.
pub open spec fn moved_on(before: Seq<VerticalWorm>, after: Seq<VerticalWorm>, width: int, height: int) -> bool {
    &&& before.len() <= after.len() <= before.len() + 1
    &&& forall|k: int| 0 <= k < before.len() ==> (#[trigger] before[k])@.ticks_to(after[k]@, width, height, 50)
    &&& after.len() > before.len() ==> {
        &&& before.len() < MAX_WORMS
        &&& after.last()@.newly_made(width, height)
        &&& after.last().worm_id == before.len() + 1
    }
}

/// A cell of the map has its place in what the map holds.
proof fn lemma_map_index(width: int, height: int, x: int, y: int)
    requires
        0 <= x < width,
        0 <= y < height,
    ensures
        0 <= map_index(height, x, y) < width * height,
{
    assert(0 <= x * height) by (nonlinear_arith)
        requires 0 <= x, 0 <= height;
    assert(x * height + height <= width * height) by (nonlinear_arith)
        requires 0 <= x < width, 0 <= height;
}

/// The glyph at place `pos` of a body.
fn glyph_at(body: &Vec<char>, pos: usize) -> (glyph: char)
    requires
        pos < body@.len(),
    ensures
        glyph == body@[pos as int],
{
    body[pos]
}

impl Matrix {
    pub closed spec fn width(&self) -> int {
        self.screen_width as int
    }

    pub closed spec fn height(&self) -> int {
        self.screen_height as int
    }

    pub closed spec fn worms(&self) -> Seq<VerticalWorm> {
        self.worms@
    }

    /// What the map holds: for each cell, column by column, the number of
    /// the worm that owns it, or 0.
    pub closed spec fn owners(&self) -> Seq<usize> {
        map_cells(self.map)
    }

    /// The map has the shape of the screen.
    pub closed spec fn wf(&self) -> bool {
        &&& map_shape(self.map) == (self.screen_width as nat, self.screen_height as nat)
        &&& map_cells(self.map).len() == self.screen_width * self.screen_height
    }

    /// A screen of the given size with the given number of worms on it.
    pub fn new(width: u16, height: u16, number_of_worms: usize) -> (matrix: Matrix)
        requires
            width * height <= isize::MAX,
        ensures
            matrix.wf(),
            matrix.width() == width,
            matrix.height() == height,
            matrix.worms().len() == number_of_worms,
            exists|made: Seq<VerticalWorm>| #[trigger]
                newly_made_all(made, width as int, height as int) && matrix.worms() == sorted_by_rank(made),
            matrix.owners() == claimed_by(
                Seq::new((width * height) as nat, |i: int| 0usize),
                width as int,
                height as int,
                matrix.worms(),
                false,
                number_of_worms as int,
            ),
    {
        let mut rng = rand::rng();
        let mut worms: Vec<VerticalWorm> = Vec::new();
        let mut worm_id: usize = 0;
        while worm_id < number_of_worms
            invariant
                worm_id <= number_of_worms,
                worms@.len() == worm_id,
                newly_made_all(worms@, width as int, height as int),
            decreases number_of_worms - worm_id,
        {
            worm_id += 1;
            worms.push(VerticalWorm::new(width, height, worm_id, &mut rng));
        }
        let mut map = map_zeros(width as usize, height as usize);
        let ghost made = worms@;
        sort_by_rank(&mut worms);
        proof {
            lemma_sorted_members(made);
        }
        Matrix::claim_cells(&worms, &mut map, false);
        Matrix { screen_width: width, screen_height: height, worms, map, rng }
    }

    /// Lets each worm lay claim to its cells, one worm after the other.
    fn claim_cells(worms: &Vec<VerticalWorm>, map: &mut WormMap, by_body: bool)
        requires
            map_cells(*old(map)).len() == map_shape(*old(map)).0 * map_shape(*old(map)).1,
        ensures
            map_shape(*final(map)) == map_shape(*old(map)),
            map_cells(*final(map)).len() == map_cells(*old(map)).len(),
            map_cells(*final(map)) == claimed_by(
                map_cells(*old(map)),
                map_shape(*old(map)).0 as int,
                map_shape(*old(map)).1 as int,
                worms@,
                by_body,
                worms@.len() as int,
            ),
    {
        let ghost width = map_shape(*map).0 as int;
        let ghost height = map_shape(*map).1 as int;
        let mut k: usize = 0;
        while k < worms.len()
            invariant
                k <= worms@.len(),
                map_shape(*map) == map_shape(*old(map)),
                width == map_shape(*map).0,
                height == map_shape(*map).1,
                map_cells(*map).len() == width * height,
                map_cells(*map) == claimed_by(map_cells(*old(map)), width, height, worms@, by_body, k as int),
            decreases worms@.len() - k,
        {
            let worm = &worms[k];
            let (x, y) = worm.to_points();
            let places = if by_body {
                worm.body.len()
            } else {
                worms.len()
            };
            let ghost start = map_cells(*map);
            let mut pos: usize = 0;
            while pos < places
                invariant
                    pos <= places,
                    (x as int, y as int) == (head_row(worm.fx as int), head_row(worm.fy as int)),
                    map_shape(*map) == map_shape(*old(map)),
                    width == map_shape(*map).0,
                    height == map_shape(*map).1,
                    map_cells(*map).len() == width * height,
                    map_cells(*map) == claimed(start, width, height, worm@, pos as int),
                decreases places - pos,
            {
                if pos <= y as usize {
                    let yy = y as usize - pos;
                    if Matrix::on_map(map, x as usize, yy) {
                        proof {
                            lemma_map_index(width, height, x as int, yy as int);
                        }
                        map_set(map, x as usize, yy, worm.worm_id);
                    }
                }
                pos += 1;
            }
            k += 1;
        }
    }

    /// The cell lies on the map.
    fn on_map(map: &WormMap, x: usize, y: usize) -> (on: bool)
        ensures
            on == (x < map_shape(*map).0 && y < map_shape(*map).1),
    {
        Matrix::shape(map).0 > x && Matrix::shape(map).1 > y
    }

    fn shape(map: &WormMap) -> (shape: (usize, usize))
        ensures
            shape.0 == map_shape(*map).0,
            shape.1 == map_shape(*map).1,
    {
        crate::matrix::grid::map_dim(map)
    }

    /// The commands that draw the screen: those that clear the cells that
    /// no worm owns, and those that print each worm whose head is on the
    /// screen, as far as it owns the cells under its glyphs. The worms are
    /// left in the order of their height.
    pub fn draw(&mut self) -> (queue: Vec<QueueItems>)
        requires
            old(self).wf(),
        ensures
            final(self).wf(),
            final(self).width() == old(self).width(),
            final(self).height() == old(self).height(),
            final(self).owners() == old(self).owners(),
            final(self).worms() == sorted_by_rank(old(self).worms()),
            queue@ == clears(old(self).owners(), old(self).height(), old(self).owners().len() as int) + prints_all(
                old(self).owners(),
                old(self).width(),
                old(self).height(),
                final(self).worms(),
                final(self).worms().len() as int,
            ),
    {
        let mut queue: Vec<QueueItems> = Vec::new();
        let ghost cells = map_cells(self.map);
        let ghost width = self.screen_width as int;
        let ghost height = self.screen_height as int;
        assert(self.screen_width * self.screen_height <= usize::MAX) by (nonlinear_arith)
            requires self.screen_width <= 0xffff, self.screen_height <= 0xffff, usize::MAX >= 0xffff_ffff;
        let n = self.screen_width as usize * self.screen_height as usize;
        let rows = self.screen_height as usize;
        let mut i: usize = 0;
        while i < n
            invariant
                i <= n,
                n == width * height,
                rows == height,
                self.wf(),
                *self == *old(self),
                cells == map_cells(self.map),
                width == self.screen_width,
                height == self.screen_height,
                queue@ == clears(cells, height, i as int),
            decreases n - i,
        {
            proof {
                assert(height * width == width * height) by (nonlinear_arith);
                assert(height > 0) by (nonlinear_arith)
                    requires 0 <= i < width * height, 0 <= height, 0 <= width;
                crate::buffer::lemma_position_in_range(height, width, i as int);
            }
            let x = i / rows;
            let y = i % rows;
            if map_get(&self.map, x, y) == 0 {
                queue.push(QueueItems::MoveTo(x as u16, y as u16));
                queue.push(QueueItems::ClearChar);
            }
            i += 1;
        }
        let ghost cleared = queue@;
        sort_by_rank(&mut self.worms);
        let mut k: usize = 0;
        while k < self.worms.len()
            invariant
                k <= self.worms@.len(),
                self.wf(),
                self.screen_width == old(self).screen_width,
                self.screen_height == old(self).screen_height,
                self.map == old(self).map,
                self.worms@ == sorted_by_rank(old(self).worms@),
                cells == map_cells(self.map),
                width == self.screen_width,
                height == self.screen_height,
                queue@ == cleared + prints_all(cells, width, height, self.worms@, k as int),
            decreases self.worms@.len() - k,
        {
            let worm = &self.worms[k];
            let (x, y) = worm.to_points();
            let ghost before = queue@;
            if y < self.screen_height {
                let mut pos: usize = 0;
                while pos < worm.body.len()
                    invariant
                        pos <= worm.body@.len(),
                        self.wf(),
                        (x as int, y as int) == (head_row(worm.fx as int), head_row(worm.fy as int)),
                        y < self.screen_height,
                        cells == map_cells(self.map),
                        width == self.screen_width,
                        height == self.screen_height,
                        queue@ == before + prints(cells, width, height, worm@, pos as int),
                    decreases worm.body@.len() - pos,
                {
                    if pos <= y as usize && x < self.screen_width {
                        let yy = y - pos as u16;
                        proof {
                            lemma_map_index(width, height, x as int, yy as int);
                        }
                        if map_get(&self.map, x as usize, yy as usize) == worm.worm_id {
                            let glyph = glyph_at(&worm.body, pos);
                            queue.push(QueueItems::MoveTo(x, yy));
                            queue.push(QueueItems::PrintChar(worm.vw_style, (pos % 0x1_0000) as u16, glyph));
                        }
                    }
                    pos += 1;
                    assert(queue@ =~= before + prints(cells, width, height, worm@, pos as int));
                }
            }
            k += 1;
            assert(queue@ =~= cleared + prints_all(cells, width, height, self.worms@, k as int));
        }
        queue
    }

    /// Adds one more worm, three times out of ten, unless there are
    /// `MAX_WORMS` already.
    pub fn add_one(&mut self)
        requires
            old(self).wf(),
        ensures
            final(self).wf(),
            final(self).width() == old(self).width(),
            final(self).height() == old(self).height(),
            final(self).owners() == old(self).owners(),
            final(self).worms() == old(self).worms() || {
                &&& old(self).worms().len() < MAX_WORMS
                &&& final(self).worms().len() == old(self).worms().len() + 1
                &&& final(self).worms().drop_last() == old(self).worms()
                &&& final(self).worms().last()@.newly_made(old(self).width(), old(self).height())
                &&& final(self).worms().last().worm_id == old(self).worms().len() + 1
            },
    {
        if self.worms.len() >= MAX_WORMS {
            return;
        }
        let spawn = chance(&mut self.rng, 3, 10);
        self.add_one_when(spawn);
    }

    /// Adds one more worm, made for the screen and numbered after the worms
    /// that are there, where `spawn` says so and there are fewer than
    /// `MAX_WORMS`. Else the worms stay as they are.
    pub fn add_one_when(&mut self, spawn: bool)
        requires
            old(self).wf(),
        ensures
            final(self).wf(),
            final(self).width() == old(self).width(),
            final(self).height() == old(self).height(),
            final(self).owners() == old(self).owners(),
            spawn && old(self).worms().len() < MAX_WORMS ==> {
                &&& final(self).worms().len() == old(self).worms().len() + 1
                &&& final(self).worms().drop_last() == old(self).worms()
                &&& final(self).worms().last()@.newly_made(old(self).width(), old(self).height())
                &&& final(self).worms().last().worm_id == old(self).worms().len() + 1
            },
            !spawn || old(self).worms().len() >= MAX_WORMS ==> final(self).worms() == old(self).worms(),
    {
        if !spawn || self.worms.len() >= MAX_WORMS {
            return;
        }
        let worm = VerticalWorm::new(self.screen_width, self.screen_height, self.worms.len() + 1, &mut self.rng);
        self.worms.push(worm);
        assert(self.worms@.drop_last() =~= old(self).worms@);
    }

    /// Moves every worm on by 50 milliseconds, now and then adds a worm,
    /// and lets the worms, in the order of their height, lay claim to the
    /// cells under their bodies.
    pub fn update(&mut self)
        requires
            old(self).wf(),
        ensures
            final(self).wf(),
            final(self).width() == old(self).width(),
            final(self).height() == old(self).height(),
            exists|moved: Seq<VerticalWorm>| #[trigger]
                moved_on(old(self).worms(), moved, old(self).width(), old(self).height()) && final(self).worms()
                    == sorted_by_rank(moved),
            final(self).owners() == claimed_by(
                Seq::new(old(self).owners().len(), |i: int| 0usize),
                old(self).width(),
                old(self).height(),
                final(self).worms(),
                true,
                final(self).worms().len() as int,
            ),
    {
        let n = self.worms.len();
        let mut k: usize = 0;
        while k < n
            invariant
                k <= n,
                n == self.worms@.len(),
                n == old(self).worms@.len(),
                self.wf(),
                self.screen_width == old(self).screen_width,
                self.screen_height == old(self).screen_height,
                self.map == old(self).map,
                forall|j: int| k <= j < n ==> self.worms@[j] == old(self).worms@[j],
                forall|j: int|
                    0 <= j < k ==> (#[trigger] old(self).worms@[j])@.ticks_to(
                        self.worms@[j]@,
                        self.screen_width as int,
                        self.screen_height as int,
                        50,
                    ),
            decreases n - k,
        {
            let width = self.screen_width;
            let height = self.screen_height;
            self.worms[k].update(width, height, 50, &mut self.rng);
            k += 1;
        }
        self.add_one();
        let ghost moved = self.worms@;
        assert(moved_on(old(self).worms(), moved, old(self).width(), old(self).height())) by {
            if moved.len() > n {
                assert forall|j: int| 0 <= j < n implies (#[trigger] old(self).worms@[j])@.ticks_to(
                    moved[j]@,
                    self.screen_width as int,
                    self.screen_height as int,
                    50,
                ) by {
                    assert(moved[j] == moved.drop_last()[j]);
                }
            }
        }
        map_fill(&mut self.map, 0);
        sort_by_rank(&mut self.worms);
        Matrix::claim_cells(&self.worms, &mut self.map, true);
    }

    /// Number of worms on the screen.
    pub fn worm_count(&self) -> (count: usize)
        ensures
            count == self.worms().len(),
    {
        self.worms.len()
    }
}

} // verus!

