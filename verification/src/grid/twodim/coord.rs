//! The grid's internal coordinate and its row-major linearization.

use vstd::prelude::*;
use vstd::arithmetic::div_mod::{
    lemma_fundamental_div_mod, lemma_fundamental_div_mod_converse,
    lemma_mod_division_less_than_divisor,
};
use vstd::arithmetic::mul::lemma_mul_inequality;

use crate::traits::Coord;

verus! {

/// Row-major linear slot of the coordinate `(x, y)` on a grid with
/// `cols` columns.
pub open spec fn offset_of(x: int, y: int, cols: int) -> int {
    y * cols + x
}

/// The `x` component of the coordinate stored at linear slot `off`.
pub open spec fn x_of(off: int, cols: int) -> int {
    off % cols
}

/// The `y` component of the coordinate stored at linear slot `off`.
pub open spec fn y_of(off: int, cols: int) -> int {
    off / cols
}

/// Coordinate for `TwodimGrid`.  The need for a custom coordinate comes
/// from the grid storing its cells in a one-dimensional `Vec`: this
/// coordinate can be reconstructed from a linear offset and the grid
/// size.
#[derive(Clone, Copy, Debug, PartialEq, Eq, Structural)]
pub struct GridCoord {
    /// Column of the coordinate.
    pub x: i32,
    /// Row of the coordinate.
    pub y: i32,
}

impl GridCoord {
    /// Reconstructs the coordinate stored at `offset` in the flat cell
    /// buffer of a grid with the given extents.  Inverse of
    /// [`offset_of`] on every in-range offset.
    pub fn from_offset(offset: i32, rows: i32, cols: i32) -> (r: GridCoord)
        requires
            1 <= rows,
            1 <= cols,
            0 <= offset < rows * cols,
        ensures
            r.x as int == x_of(offset as int, cols as int),
            r.y as int == y_of(offset as int, cols as int),
            0 <= r.x < cols,
            0 <= r.y < rows,
    {
        proof {
            lemma_from_offset_roundtrip(offset as int, rows as int, cols as int);
        }
        let col = offset % cols;
        let row = (offset - col) / cols;
        proof {
            lemma_fundamental_div_mod(offset as int, cols as int);
            lemma_fundamental_div_mod_converse(
                offset as int - col as int,
                cols as int,
                offset as int / cols as int,
                0,
            );
        }
        GridCoord { x: col, y: row }
    }
}

impl Coord for GridCoord {
    open spec fn spec_x(&self) -> int {
        self.x as int
    }

    open spec fn spec_y(&self) -> int {
        self.y as int
    }

    fn from_2d(x: i32, y: i32) -> (r: Self) {
        GridCoord { x, y }
    }

    fn x(&self) -> (r: i32) {
        self.x
    }

    fn y(&self) -> (r: i32) {
        self.y
    }
}

/// Linearization round-trip, one direction: every coordinate within the
/// grid extents is recovered unchanged from its linear slot.
pub proof fn lemma_offset_roundtrip(x: int, y: int, rows: int, cols: int)
    requires
        0 <= x < cols,
        0 <= y < rows,
    ensures
        0 <= offset_of(x, y, cols) < rows * cols,
        x_of(offset_of(x, y, cols), cols) == x,
        y_of(offset_of(x, y, cols), cols) == y,
{
    lemma_fundamental_div_mod_converse(offset_of(x, y, cols), cols, y, x);
    lemma_mul_inequality(y, rows - 1, cols);
    assert((rows - 1) * cols == rows * cols - cols) by (nonlinear_arith);
    assert(y * cols >= 0) by (nonlinear_arith)
        requires
            y >= 0,
            cols > 0,
    ;
}

/// Linearization round-trip, other direction: every in-range linear slot
/// maps to an in-bounds coordinate whose linear slot it is.
pub proof fn lemma_from_offset_roundtrip(off: int, rows: int, cols: int)
    requires
        1 <= rows,
        1 <= cols,
        0 <= off < rows * cols,
    ensures
        0 <= x_of(off, cols) < cols,
        0 <= y_of(off, cols) < rows,
        offset_of(x_of(off, cols), y_of(off, cols), cols) == off,
{
    lemma_fundamental_div_mod(off, cols);
    lemma_mod_division_less_than_divisor(off, cols);
    assert(cols * (off / cols) == (off / cols) * cols) by (nonlinear_arith);
    assert(off / cols < rows) by {
        if off / cols >= rows {
            lemma_mul_inequality(rows, off / cols, cols);
            assert(cols * (off / cols) == (off / cols) * cols) by (nonlinear_arith);
        }
    }
    assert(off / cols >= 0) by {
        if off / cols < 0 {
            assert(cols * (off / cols) <= cols * (-1)) by (nonlinear_arith)
                requires
                    cols >= 1,
                    off / cols <= -1,
            ;
        }
    }
}

} // verus!
