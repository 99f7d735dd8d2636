//! Plain representations of cells and grids: the bridge to consumers
//! that render or export a lattice.

use std::io::Write;

use vstd::prelude::*;

use crate::traits::Coord;

verus! {

/// Plain representation of one cell: its coordinate and a list of named
/// state values.
#[derive(Debug)]
pub struct CellRepr<C: Coord> {
    /// The represented cell's coordinate.
    pub coord: C,
    /// Named state values, one pair per entry.
    pub state: Vec<(String, String)>,
}

impl<C: Coord> CellRepr<C> {
    /// Builds a representation of the cell at `coord`, carrying the
    /// given state pairs, or none.
    pub fn new(coord: C, state: Option<Vec<(String, String)>>) -> (r: Self)
        ensures
            r.coord == coord,
            r.state@ == match state {
                Some(pairs) => pairs@,
                None => Seq::<(String, String)>::empty(),
            },
    {
        let state = match state {
            Some(pairs) => pairs,
            None => Vec::new(),
        };
        CellRepr { coord, state }
    }
}

/// Plain representation of a whole grid: its extents and one cell
/// representation per described cell.
#[derive(Debug)]
pub struct GridRepr<C: Coord> {
    /// Number of rows.
    pub rows: i32,
    /// Number of columns.
    pub cols: i32,
    /// The described cells.
    pub cells: Vec<CellRepr<C>>,
}

impl<C: Coord> GridRepr<C> {
    /// Builds a representation of a grid with the given extents,
    /// carrying the given cell representations, or none.
    pub fn new(rows: i32, cols: i32, cells: Option<Vec<CellRepr<C>>>) -> (r: Self)
        ensures
            r.rows == rows,
            r.cols == cols,
            match cells {
                Some(cs) => r.cells@ == cs@,
                None => r.cells@.len() == 0,
            },
    {
        let cells = match cells {
            Some(cs) => cs,
            None => Vec::new(),
        };
        GridRepr { rows, cols, cells }
    }
}

/// Consumer that writes every described cell to standard output.
pub struct SimpleConsumer;

impl SimpleConsumer {
    /// Constructs the consumer.
    pub fn new() -> Self {
        SimpleConsumer
    }

    /// Relies on `std::io::Stdout::write_fmt`, reached through
    /// `writeln`, to print each cell's coordinate and state pairs.
    #[verifier::external_body]
    pub fn consume<C: Coord>(&mut self, repr: &GridRepr<C>) {
        let mut out = std::io::stdout();
        for cell in repr.cells.iter() {
            let _ = writeln!(out, "{} {}", cell.coord.x(), cell.coord.y());
            for (state, value) in cell.state.iter() {
                let _ = writeln!(out, "{}: {}", state, value);
            }
        }
    }
}

} // verus!
