//! Fixed-point lengths: fine units per grid cell, and the cell a length falls in.

use vstd::prelude::*;

verus! {

/// How many fine units make one grid cell. Every constant of the game
/// (1/60, 1/2, 11/40 of a cell) is a whole number of units.
pub const UNITS_PER_CELL: isize = 120;

/// The cell index of a fine coordinate: the quotient by `UNITS_PER_CELL`,
/// truncated toward zero. A coordinate strictly between -1 and 1 cell lies in
/// cell 0.
pub open spec fn cell_of(x: int) -> int {
    if x >= 0 {
        x / (UNITS_PER_CELL as int)
    } else {
        -((-x) / (UNITS_PER_CELL as int))
    }
}

/// The fine coordinate of the left (or upper) border of a cell.
pub open spec fn cell_origin(c: int) -> int {
    c * (UNITS_PER_CELL as int)
}

/// Whether a mathematical integer can be held in an `isize`.
pub open spec fn fits(x: int) -> bool {
    isize::MIN <= x <= isize::MAX
}

/// The cell that a fine coordinate falls in.
pub fn to_cell(x: isize) -> (c: isize)
    ensures
        c == cell_of(x as int),
{
    x / UNITS_PER_CELL
}

/// The fine coordinate at which a cell begins.
pub fn from_cell(c: isize) -> (x: isize)
    requires
        fits(cell_origin(c as int)),
    ensures
        x == cell_origin(c as int),
{
    c * UNITS_PER_CELL
}

/// A cell's origin lies in that cell.
pub proof fn lemma_cell_of_origin(c: int)
    ensures
        cell_of(cell_origin(c)) == c,
{
}

/// Truncation never reorders coordinates.
pub proof fn lemma_cell_of_monotone(a: int, b: int)
    requires
        a <= b,
    ensures
        cell_of(a) <= cell_of(b),
{
}

/// A coordinate falls in a cell left of the origin cell exactly when it is at
/// least one whole cell below zero, and in cell `c > 0` or beyond exactly when
/// it has reached that cell's origin.
pub proof fn lemma_cell_of_bounds(x: int, c: int)
    ensures
        cell_of(x) < 0 <==> x <= -(UNITS_PER_CELL as int),
        c > 0 ==> (cell_of(x) >= c <==> x >= cell_origin(c)),
        c >= 0 ==> (cell_of(x) <= c <==> x < cell_origin(c + 1)),
{
}

} // verus!
