//! The mapping from world coordinates to grid cells.

use vstd::prelude::*;

verus! {

/// Width and height of one grid cell, in world units.
pub const CELL_SIZE: i32 = 5;

/// The grid coordinate of the lowest world coordinate.
pub const MIN_COORD: i32 = -429_496_730;

/// The grid coordinate of the highest world coordinate.
pub const MAX_COORD: i32 = 429_496_729;

/// A cell of the grid, named by its column `x` and its row `y`.
#[derive(Clone, Copy, Debug, PartialEq, Eq, Structural)]
pub struct Cell {
    pub x: i32,
    pub y: i32,
}

impl View for Cell {
    type V = (int, int);

    open spec fn view(&self) -> (int, int) {
        (self.x as int, self.y as int)
    }
}

/// The quotient `p / CELL_SIZE` rounded to the nearest integer, a half
/// rounding away from zero. The cell size is written out, so that the
/// quotient can be computed on given numbers.
pub open spec fn cell_coord(p: int) -> int {
    if p >= 0 {
        (2 * p + 5) / 10
    } else {
        -((5 - 2 * p) / 10)
    }
}

/// The cell that holds the world position `(x, y)`.
pub open spec fn cell_at(x: int, y: int) -> (int, int) {
    (cell_coord(x), cell_coord(y))
}

/// The grid coordinate of `p` is the integer nearest to `p / CELL_SIZE`, and
/// no other integer is as near: the mapping has exactly one answer for every
/// position.
pub proof fn lemma_cell_coord_nearest(p: int, c: int)
    ensures
        c == cell_coord(p) <==> -CELL_SIZE < 2 * (p - CELL_SIZE * c) < CELL_SIZE,
{
    if p >= 0 {
        let q = (2 * p + 5) / 10;
        assert(10 * q <= 2 * p + 5 < 10 * q + 10);
    } else {
        let q = (5 - 2 * p) / 10;
        assert(10 * q <= 5 - 2 * p < 10 * q + 10);
    }
}

/// Every world coordinate lies in a column, or row, between `MIN_COORD` and
/// `MAX_COORD`.
pub proof fn lemma_cell_coord_bounds(p: int)
    requires
        i32::MIN <= p <= i32::MAX,
    ensures
        MIN_COORD <= cell_coord(p) <= MAX_COORD,
{
    lemma_cell_coord_nearest(p, cell_coord(p));
}

/// Maps one world coordinate to its grid coordinate.
pub fn grid_coord(p: i32) -> (c: i32)
    ensures
        c == cell_coord(p as int),
        MIN_COORD <= c <= MAX_COORD,
{
    let wide: i64 = p as i64;
    if wide >= 0 {
        ((2 * wide + 5) / 10) as i32
    } else {
        (-((5 - 2 * wide) / 10)) as i32
    }
}

/// Maps a world position to the grid cell that holds it.
pub fn grid_cell(x: i32, y: i32) -> (cell: Cell)
    ensures
        cell@ == cell_at(x as int, y as int),
{
    Cell { x: grid_coord(x), y: grid_coord(y) }
}

} // verus!
