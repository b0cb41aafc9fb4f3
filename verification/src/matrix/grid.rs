//! The map of the screen: for each cell, the worm that owns it. The map is
//! a two-dimensional array of the `ndarray` crate, with one row for each
//! column of the screen.

use vstd::prelude::*;
use ndarray::Array2;

verus! {

/// An `ndarray::Array2<usize>`.
#[verifier::external_body]
pub struct WormMap {
    map: Array2<usize>,
}

/// What the map holds, column by column of the screen.
pub uninterp spec fn map_cells(map: WormMap) -> Seq<usize>;

/// Number of columns and rows of the screen that the map was made for.
pub uninterp spec fn map_shape(map: WormMap) -> (nat, nat);

/// The place of the cell `(x, y)` in what a map of `height` rows holds.
pub open spec fn map_index(height: int, x: int, y: int) -> int {
    x * height + y
}

/// `Array2::zeros` with the shape `(width, height)`: an array of that shape
/// that holds zeros. The call panics where the product of the sides that are
/// not zero does not fit an `isize`; so neither side, nor the number of
/// cells, may be above `isize::MAX`.
#[verifier::external_body]
pub(crate) fn map_zeros(width: usize, height: usize) -> (map: WormMap)
    requires
        width <= isize::MAX,
        height <= isize::MAX,
        width * height <= isize::MAX,
    ensures
        map_shape(map) == (width as nat, height as nat),
        map_cells(map) == Seq::new((width * height) as nat, |i: int| 0usize),
{
    WormMap { map: Array2::zeros((width, height)) }
}

/// Indexing an `Array2` with `[x, y]`: the element there. The call panics
/// on an index outside the array.
#[verifier::external_body]
pub(crate) fn map_get(map: &WormMap, x: usize, y: usize) -> (owner: usize)
    requires
        x < map_shape(*map).0,
        y < map_shape(*map).1,
    ensures
        owner == map_cells(*map)[map_index(map_shape(*map).1 as int, x as int, y as int)],
{
    map.map[[x, y]]
}

/// Assigning to an `Array2` at `[x, y]`: that element is replaced, the
/// others and the shape stay. The call panics on an index outside the
/// array.
#[verifier::external_body]
pub(crate) fn map_set(map: &mut WormMap, x: usize, y: usize, owner: usize)
    requires
        x < map_shape(*old(map)).0,
        y < map_shape(*old(map)).1,
    ensures
        map_shape(*final(map)) == map_shape(*old(map)),
        map_cells(*final(map)) == map_cells(*old(map)).update(
            map_index(map_shape(*old(map)).1 as int, x as int, y as int),
            owner,
        ),
{
    map.map[[x, y]] = owner;
}

/// `ArrayBase::dim` of an `Array2`: its shape.
#[verifier::external_body]
pub(crate) fn map_dim(map: &WormMap) -> (shape: (usize, usize))
    ensures
        shape.0 == map_shape(*map).0,
        shape.1 == map_shape(*map).1,
{
    map.map.dim()
}

/// `ArrayBase::fill`: every element is replaced by `owner`, the shape
/// stays.
#[verifier::external_body]
pub(crate) fn map_fill(map: &mut WormMap, owner: usize)
    ensures
        map_shape(*final(map)) == map_shape(*old(map)),
        map_cells(*final(map)) == Seq::new(map_cells(*old(map)).len(), |i: int| owner),
{
    map.map.fill(owner);
}

} // verus!
