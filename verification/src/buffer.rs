//! The character grid and the difference between two frames.

use vstd::prelude::*;
use vstd::std_specs::iter::IteratorSpec;
use crate::style::{Attribute, Color};

verus! {

/// One position of the terminal: a glyph, its colour and its attribute.
#[derive(Clone, Copy, Debug, PartialEq, Eq, Structural)]
pub struct Cell {
    pub symbol: char,
    pub color: Color,
    pub attr: Attribute,
}

impl Cell {
    /// The blank cell: a space in black with the attribute reset.
    pub open spec fn blank() -> Cell {
        Cell { symbol: ' ', color: Color::Black, attr: Attribute::Reset }
    }

    pub fn new(symbol: char, color: Color, attr: Attribute) -> (cell: Cell)
        ensures
            cell == (Cell { symbol, color, attr }),
    {
        Cell { symbol, color, attr }
    }
}

impl Default for Cell {
    fn default() -> (cell: Cell)
        ensures
            cell == Cell::blank(),
    {
        Cell { symbol: ' ', color: Color::Black, attr: Attribute::Reset }
    }
}

/// One changed cell of a frame: column, row and the cell to draw there.
pub type Change = (usize, usize, Cell);

/// A grid of cells stored row by row. Columns and rows count from zero.
pub struct Buffer {
    pub width: usize,
    pub height: usize,
    pub buffer: Vec<Cell>,
}

/// Flat index of column `x` in row `y` of a grid `width` columns wide.
pub open spec fn flat_index(width: int, x: int, y: int) -> int {
    y * width + x
}

/// The changes among the first `n` cells that turn `prev` into `next`, in
/// the order of their flat index.
pub open spec fn changes_upto(prev: Seq<Cell>, next: Seq<Cell>, width: int, n: int) -> Seq<Change>
    decreases n,
{
    if n <= 0 {
        Seq::empty()
    } else {
        let before = changes_upto(prev, next, width, n - 1);
        if prev[n - 1] != next[n - 1] {
            before.push((((n - 1) % width) as usize, ((n - 1) / width) as usize, next[n - 1]))
        } else {
            before
        }
    }
}

/// All the changes that turn the frame `prev` into the frame `next`.
pub open spec fn changes(prev: Seq<Cell>, next: Seq<Cell>, width: int) -> Seq<Change> {
    changes_upto(prev, next, width, next.len() as int)
}

/// A frame of `len` cells that all hold `cell`.
pub open spec fn uniform(len: nat, cell: Cell) -> Seq<Cell> {
    Seq::new(len, |i: int| cell)
}

/// A position inside a grid has a flat index inside the grid's storage.
pub proof fn lemma_flat_index_in_range(width: int, height: int, x: int, y: int)
    requires
        0 <= x < width,
        0 <= y < height,
    ensures
        0 <= flat_index(width, x, y) < width * height,
        flat_index(width, x, y) % width == x,
        flat_index(width, x, y) / width == y,
{
    assert(0 <= y * width) by (nonlinear_arith)
        requires 0 <= y, 0 <= width;
    assert(y * width + width <= width * height) by (nonlinear_arith)
        requires 0 <= y < height, 0 <= width;
    vstd::arithmetic::div_mod::lemma_fundamental_div_mod_converse(y * width + x, width, y, x);
}

/// A flat index inside the storage names a position inside the grid.
pub proof fn lemma_position_in_range(width: int, height: int, i: int)
    requires
        0 < width,
        0 <= i < width * height,
    ensures
        0 <= i % width < width,
        0 <= i / width < height,
        flat_index(width, i % width, i / width) == i,
{
    vstd::arithmetic::div_mod::lemma_fundamental_div_mod(i, width);
    vstd::arithmetic::div_mod::lemma_mod_bound(i, width);
    assert(i / width < height) by (nonlinear_arith)
        requires 0 < width, 0 <= i < width * height, i == width * (i / width) + i % width, 0 <= i % width;
    assert(0 <= i / width) by (nonlinear_arith)
        requires 0 < width, 0 <= i, i == width * (i / width) + i % width, i % width < width;
    assert(width * (i / width) == (i / width) * width) by (nonlinear_arith);
}

/// Flat index of the position that a change names.
pub open spec fn change_index(change: Change, width: int) -> int {
    flat_index(width, change.0 as int, change.1 as int)
}

/// What `changes_upto` holds: one entry for each differing cell below `n`,
/// with the cell of `next`, in rising order of the flat index.
proof fn lemma_changes_upto(prev: Seq<Cell>, next: Seq<Cell>, width: int, height: int, n: int)
    requires
        0 < width <= usize::MAX,
        0 < height <= usize::MAX,
        0 <= n <= width * height,
        prev.len() == width * height,
        next.len() == width * height,
    ensures
        changes_upto(prev, next, width, n).len() <= n,
        forall|k: int|
            #![trigger changes_upto(prev, next, width, n)[k]]
            0 <= k < changes_upto(prev, next, width, n).len() ==> {
                let c = changes_upto(prev, next, width, n)[k];
                &&& c.0 < width
                &&& c.1 < height
                &&& 0 <= change_index(c, width) < n
                &&& c.2 == next[change_index(c, width)]
                &&& prev[change_index(c, width)] != next[change_index(c, width)]
            },
        forall|i: int|
            0 <= i < n && #[trigger] prev[i] != next[i] ==> exists|k: int|
                0 <= k < changes_upto(prev, next, width, n).len()
                    && change_index(#[trigger] changes_upto(prev, next, width, n)[k], width) == i,
        forall|j: int, k: int|
            #![trigger changes_upto(prev, next, width, n)[j], changes_upto(prev, next, width, n)[k]]
            0 <= j < k < changes_upto(prev, next, width, n).len() ==> change_index(
                changes_upto(prev, next, width, n)[j],
                width,
            ) < change_index(changes_upto(prev, next, width, n)[k], width),
    decreases n,
{
    if n > 0 {
        lemma_changes_upto(prev, next, width, height, n - 1);
        lemma_position_in_range(width, height, n - 1);
        let before = changes_upto(prev, next, width, n - 1);
        let now = changes_upto(prev, next, width, n);
        if prev[n - 1] != next[n - 1] {
            let c = (((n - 1) % width) as usize, ((n - 1) / width) as usize, next[n - 1]);
            assert(now == before.push(c));
            assert(change_index(c, width) == n - 1);
            assert forall|i: int| 0 <= i < n && #[trigger] prev[i] != next[i] implies exists|k: int|
                0 <= k < now.len() && change_index(#[trigger] now[k], width) == i by {
                if i == n - 1 {
                    assert(change_index(now[now.len() - 1], width) == i);
                } else {
                    let k = choose|k: int|
                        0 <= k < before.len() && change_index(#[trigger] before[k], width) == i;
                    assert(change_index(now[k], width) == i);
                }
            }
        } else {
            assert(now == before);
        }
    }
}

/// The difference of two frames of one shape holds exactly the positions at
/// which they differ: each entry names a position inside the grid at which
/// the two frames differ and carries the cell of `next`; each position at
/// which they differ has an entry; and the entries come in rising order of
/// their flat index, so that no position occurs twice.
pub proof fn lemma_diff_exact(prev: Buffer, next: Buffer)
    requires
        prev.wf(),
        next.wf(),
        prev.same_shape(&next),
    ensures
        prev.diff_spec(&next).len() <= prev.width * prev.height,
        forall|k: int|
            #![trigger prev.diff_spec(&next)[k]]
            0 <= k < prev.diff_spec(&next).len() ==> {
                let c = prev.diff_spec(&next)[k];
                &&& c.0 < prev.width
                &&& c.1 < prev.height
                &&& c.2 == next.at(c.0 as int, c.1 as int)
                &&& prev.at(c.0 as int, c.1 as int) != c.2
            },
        forall|x: int, y: int|
            0 <= x < prev.width && 0 <= y < prev.height && #[trigger] prev.at(x, y) != next.at(x, y)
                ==> exists|k: int|
                0 <= k < prev.diff_spec(&next).len() && #[trigger] prev.diff_spec(&next)[k] == (
                    x as usize,
                    y as usize,
                    next.at(x, y),
                ),
        forall|j: int, k: int|
            #![trigger prev.diff_spec(&next)[j], prev.diff_spec(&next)[k]]
            0 <= j < k < prev.diff_spec(&next).len() ==> change_index(
                prev.diff_spec(&next)[j],
                prev.width as int,
            ) < change_index(prev.diff_spec(&next)[k], prev.width as int),
{
    let w = prev.width as int;
    let h = prev.height as int;
    let d = prev.diff_spec(&next);
    lemma_changes_upto(prev@, next@, w, h, w * h);
    assert forall|x: int, y: int|
        0 <= x < w && 0 <= y < h && #[trigger] prev.at(x, y) != next.at(x, y) implies exists|k: int|
        0 <= k < d.len() && #[trigger] d[k] == (x as usize, y as usize, next.at(x, y)) by {
        lemma_flat_index_in_range(w, h, x, y);
        let i = flat_index(w, x, y);
        assert(prev@[i] != next@[i]);
        let k = choose|k: int| 0 <= k < d.len() && change_index(#[trigger] d[k], w) == i;
        lemma_flat_index_in_range(w, h, d[k].0 as int, d[k].1 as int);
        assert(d[k].0 == x && d[k].1 == y);
    }
}

/// Every change between two frames of `width` by `height` cells names a
/// position inside the grid.
pub proof fn lemma_changes_bounds(prev: Seq<Cell>, next: Seq<Cell>, width: int, height: int)
    requires
        0 < width <= usize::MAX,
        0 < height <= usize::MAX,
        prev.len() == width * height,
        next.len() == width * height,
    ensures
        forall|k: int|
            0 <= k < changes(prev, next, width).len() ==> (#[trigger] changes(prev, next, width)[k]).0
                < width && changes(prev, next, width)[k].1 < height,
{
    lemma_changes_upto(prev, next, width, height, width * height);
}

/// A frame does not differ from itself.
pub proof fn lemma_diff_self_empty(frame: Buffer)
    requires
        frame.wf(),
    ensures
        frame.diff_spec(&frame) == Seq::<Change>::empty(),
{
    lemma_no_changes(frame@, frame.width as int, frame@.len() as int);
}

/// Among the first `n` cells, a frame does not differ from itself.
pub proof fn lemma_no_changes(cells: Seq<Cell>, width: int, n: int)
    ensures
        changes_upto(cells, cells, width, n) == Seq::<Change>::empty(),
    decreases n,
{
    if n > 0 {
        lemma_no_changes(cells, width, n - 1);
    }
}

/// Number of cells among the first `n` of `frame` that are not blank.
pub open spec fn marked_upto(frame: Seq<Cell>, n: int) -> nat
    decreases n,
{
    if n <= 0 {
        0
    } else if frame[n - 1] != Cell::blank() {
        marked_upto(frame, n - 1) + 1
    } else {
        marked_upto(frame, n - 1)
    }
}

/// Number of cells of `frame` that are not blank.
pub open spec fn marked(frame: Seq<Cell>) -> nat {
    marked_upto(frame, frame.len() as int)
}

/// Painting a frame onto a blank screen takes one change for each cell of
/// the frame that is not blank.
pub proof fn lemma_repaint_length(frame: Seq<Cell>, width: int)
    ensures
        changes(uniform(frame.len(), Cell::blank()), frame, width).len() == marked(frame),
{
    lemma_repaint_upto(frame, width, frame.len() as int);
}

proof fn lemma_repaint_upto(frame: Seq<Cell>, width: int, n: int)
    requires
        n <= frame.len(),
    ensures
        changes_upto(uniform(frame.len(), Cell::blank()), frame, width, n).len() == marked_upto(frame, n),
    decreases n,
{
    if n > 0 {
        lemma_repaint_upto(frame, width, n - 1);
    }
}

/// A buffer has at least one cell: a grid with no columns or no rows is
/// none. Its first cell is the one in column 0 of row 0.
pub proof fn lemma_buffer_has_cells(buffer: Buffer)
    requires
        buffer.wf(),
    ensures
        buffer.width >= 1,
        buffer.height >= 1,
        buffer@.len() >= 1,
        buffer.at(0, 0) == buffer@[0],
{
    lemma_flat_index_in_range(buffer.width as int, buffer.height as int, 0, 0);
}

/// A cell that was put into a grid is read back from its position, and
/// every other position reads as before.
pub proof fn lemma_set_reads_back(before: Buffer, after: Buffer, x: int, y: int, cell: Cell)
    requires
        before.wf(),
        0 <= x < before.width,
        0 <= y < before.height,
        after.width == before.width,
        after.height == before.height,
        after@ == before@.update(flat_index(before.width as int, x, y), cell),
    ensures
        after.wf(),
        after.at(x, y) == cell,
        forall|x2: int, y2: int|
            0 <= x2 < before.width && 0 <= y2 < before.height && (x2 != x || y2 != y) ==> #[trigger] after.at(
                x2,
                y2,
            ) == before.at(x2, y2),
{
    lemma_flat_index_in_range(before.width as int, before.height as int, x, y);
    assert forall|x2: int, y2: int|
        0 <= x2 < before.width && 0 <= y2 < before.height && (x2 != x || y2 != y) implies #[trigger] after.at(
        x2,
        y2,
    ) == before.at(x2, y2) by {
        lemma_flat_index_in_range(before.width as int, before.height as int, x2, y2);
    }
}

/// In a frame whose cells all hold `cell`, every position reads `cell`.
pub proof fn lemma_uniform_reads_back(frame: Buffer, cell: Cell)
    requires
        frame.wf(),
        frame@ == uniform(frame@.len(), cell),
    ensures
        forall|x: int, y: int|
            0 <= x < frame.width && 0 <= y < frame.height ==> #[trigger] frame.at(x, y) == cell,
{
    assert forall|x: int, y: int| 0 <= x < frame.width && 0 <= y < frame.height implies #[trigger] frame.at(
        x,
        y,
    ) == cell by {
        lemma_flat_index_in_range(frame.width as int, frame.height as int, x, y);
    }
}

impl View for Buffer {
    type V = Seq<Cell>;

    open spec fn view(&self) -> Seq<Cell> {
        self.buffer@
    }
}

impl Clone for Buffer {
    fn clone(&self) -> (copy: Buffer)
        ensures
            copy.width == self.width,
            copy.height == self.height,
            copy@ == self@,
    {
        let buffer = self.buffer.clone();
        assert(buffer@ =~= self.buffer@);
        Buffer { width: self.width, height: self.height, buffer }
    }
}

impl Buffer {
    /// The grid has at least one cell and its storage holds one cell for
    /// each position.
    pub open spec fn wf(&self) -> bool {
        &&& self.width > 0
        &&& self.height > 0
        &&& self.buffer@.len() == self.width * self.height
    }

    /// The cell in column `x` of row `y`.
    pub open spec fn at(&self, x: int, y: int) -> Cell {
        self.buffer@[flat_index(self.width as int, x, y)]
    }

    pub open spec fn same_shape(&self, other: &Buffer) -> bool {
        self.width == other.width && self.height == other.height
    }

    /// The changes that turn this frame into `other`.
    pub open spec fn diff_spec(&self, other: &Buffer) -> Seq<Change> {
        changes(self@, other@, self.width as int)
    }

    /// A grid of `width` by `height` blank cells.
    pub fn new(width: usize, height: usize) -> (buf: Buffer)
        requires
            width > 0,
            height > 0,
            width * height <= usize::MAX,
        ensures
            buf.wf(),
            buf.width == width,
            buf.height == height,
            buf@ == uniform((width * height) as nat, Cell::blank()),
    {
        let buffer = vec![Cell::default(); width * height];
        assert(buffer@ =~= uniform((width * height) as nat, Cell::blank()));
        Buffer { width, height, buffer }
    }

    /// A grid of `width` by `height` blank cells, or `None` where a side is
    /// zero or the number of cells does not fit the machine.
    pub fn try_new(width: usize, height: usize) -> (res: Option<Buffer>)
        ensures
            res.is_some() <==> width > 0 && height > 0 && width * height <= usize::MAX,
            res matches Some(buf) ==> {
                &&& buf.wf()
                &&& buf.width == width
                &&& buf.height == height
                &&& buf@ == uniform((width * height) as nat, Cell::blank())
            },
    {
        if width == 0 || height == 0 {
            return None;
        }
        match width.checked_mul(height) {
            Some(_) => Some(Buffer::new(width, height)),
            None => None,
        }
    }

    /// Overwrites every cell with `cell`.
    pub fn fill_with(&mut self, cell: &Cell)
        ensures
            final(self).width == old(self).width,
            final(self).height == old(self).height,
            final(self)@ == uniform(old(self)@.len(), *cell),
    {
        let n = self.buffer.len();
        let mut i: usize = 0;
        while i < n
            invariant
                i <= n,
                n == self.buffer@.len(),
                self.width == old(self).width,
                self.height == old(self).height,
                self.buffer@.len() == old(self).buffer@.len(),
                forall|k: int| 0 <= k < i ==> self.buffer@[k] == *cell,
            decreases n - i,
        {
            self.buffer.set(i, *cell);
            i += 1;
        }
        assert(self.buffer@ =~= uniform(old(self)@.len(), *cell));
    }

    pub fn get_size(&self) -> (size: (usize, usize))
        ensures
            size == (self.width, self.height),
    {
        (self.width, self.height)
    }

    /// Puts `cell` into column `x` of row `y`.
    pub fn set(&mut self, x: usize, y: usize, cell: Cell)
        requires
            old(self).wf(),
            x < old(self).width,
            y < old(self).height,
        ensures
            final(self).wf(),
            final(self).width == old(self).width,
            final(self).height == old(self).height,
            final(self)@ == old(self)@.update(flat_index(old(self).width as int, x as int, y as int), cell),
    {
        let index = self.index_of(x, y);
        self.buffer.set(index, cell);
    }

    /// The cell in column `x` of row `y`.
    pub fn get(&self, x: usize, y: usize) -> (cell: Cell)
        requires
            self.wf(),
            x < self.width,
            y < self.height,
        ensures
            cell == self.at(x as int, y as int),
    {
        let index = self.index_of(x, y);
        self.buffer[index]
    }

    /// Flat index of column `x` in row `y`.
    pub fn index_of(&self, x: usize, y: usize) -> (index: usize)
        requires
            self.wf(),
            x < self.width,
            y < self.height,
        ensures
            index == flat_index(self.width as int, x as int, y as int),
            index < self.buffer@.len(),
    {
        proof {
            lemma_flat_index_in_range(self.width as int, self.height as int, x as int, y as int);
            assert(0 <= y * self.width) by (nonlinear_arith)
                requires 0 <= y, 0 <= self.width;
            assert(self.buffer.len() == self.width * self.height);
            assert(y * self.width + x < self.width * self.height);
        }
        y * self.width + x
    }

    /// Column and row of the cell with the flat index `i`.
    pub fn pos_of(&self, i: usize) -> (pos: (usize, usize))
        requires
            self.width > 0,
        ensures
            pos.0 == i % self.width,
            pos.1 == i / self.width,
    {
        (i % self.width, i / self.width)
    }

    /// The cells of `other` that differ from this frame, each with its
    /// column and row, row by row.
    pub fn diff(&self, other: &Buffer) -> (updates: Vec<Change>)
        requires
            self.wf(),
            other.wf(),
            self.same_shape(other),
        ensures
            updates@ == self.diff_spec(other),
    {
        let mut updates: Vec<Change> = Vec::new();
        let n = other.buffer.len();
        let mut i: usize = 0;
        while i < n
            invariant
                i <= n,
                n == other.buffer@.len(),
                n == self.buffer@.len(),
                self.width > 0,
                updates@ == changes_upto(self@, other@, self.width as int, i as int),
            decreases n - i,
        {
            if other.buffer[i] != self.buffer[i] {
                let (x, y) = self.pos_of(i);
                updates.push((x, y, other.buffer[i]));
            }
            i += 1;
        }
        updates
    }

    /// The cells row by row.
    pub fn iter(&self) -> (cells: std::slice::Iter<'_, Cell>)
        ensures
            cells.remaining() == self@.as_ref(),
    {
        self.buffer.as_slice().iter()
    }
}

} // verus!
