//! Interfaces on which this library is built.

use vstd::prelude::*;

use crate::grid::twodim::coord::offset_of;

verus! {

/// Basic coordinate with three components.  This library builds automata
/// on 2D grids for now, so `z` is fixed at zero by a default method.
pub trait Coord: Sized {
    /// The `x` component as a mathematical integer.
    spec fn spec_x(&self) -> int;

    /// The `y` component as a mathematical integer.
    spec fn spec_y(&self) -> int;

    /// Builds the coordinate from a pair of components.
    fn from_2d(x: i32, y: i32) -> (r: Self)
        ensures
            r.spec_x() == x as int,
            r.spec_y() == y as int,
    ;

    /// Returns the `x` component.
    fn x(&self) -> (r: i32)
        ensures
            r as int == self.spec_x(),
    ;

    /// Returns the `y` component.
    fn y(&self) -> (r: i32)
        ensures
            r as int == self.spec_y(),
    ;

    /// Returns the `z` component.
    fn z(&self) -> (r: i32)
        default_ensures
            r == 0,
    {
        0
    }
}

impl Coord for (i32, i32) {
    open spec fn spec_x(&self) -> int {
        self.0 as int
    }

    open spec fn spec_y(&self) -> int {
        self.1 as int
    }

    fn from_2d(x: i32, y: i32) -> (r: Self) {
        (x, y)
    }

    fn x(&self) -> (r: i32) {
        self.0
    }

    fn y(&self) -> (r: i32) {
        self.1
    }
}

/// Global state of the entire simulation which can be updated
/// independently from any particular cell.  It is advanced exactly once
/// between two generations, never during one.
pub trait EvolutionState: Sized {
    /// The state after one advance.
    spec fn spec_update(self) -> Self;

    /// Advances the state; called once between two generations.
    fn update(&mut self)
        ensures
            *final(self) == old(self).spec_update(),
    ;
}

/// The unit of simulation state: rule authors implement this trait.  A
/// cell is a plain value with an attached coordinate; its next value is
/// a pure function of its previous value, the ordered sequence of
/// optional neighbors (absent where the grid ends) and the global
/// evolution state.
pub trait Cell: Sized + Copy {
    /// Coords supported by the cell.
    type Coord: Coord;

    /// Global state of evolution.
    type State: EvolutionState;

    /// The cell's coordinate, as a pair of mathematical integers.
    spec fn spec_coord(&self) -> (int, int);

    /// The cell built by `with_coord`.
    spec fn spec_with_coord(x: int, y: int) -> Self;

    /// The cell after `set_coord`.
    spec fn spec_set_coord(self, x: int, y: int) -> Self;

    /// The cell's next value: a pure function of the previous value, the
    /// neighbor view and the evolution state.
    spec fn spec_update(self, neighbors: Seq<Option<Self>>, state: Self::State) -> Self;

    /// A freshly built cell sits at the coordinate it was built with.
    proof fn lemma_with_coord_pins_coord(x: int, y: int)
        requires
            i32::MIN <= x <= i32::MAX,
            i32::MIN <= y <= i32::MAX,
        ensures
            Self::spec_with_coord(x, y).spec_coord() == (x, y),
    ;

    /// `set_coord` moves the cell to exactly the given coordinate.
    proof fn lemma_set_coord_pins_coord(self, x: int, y: int)
        requires
            i32::MIN <= x <= i32::MAX,
            i32::MIN <= y <= i32::MAX,
        ensures
            self.spec_set_coord(x, y).spec_coord() == (x, y),
    ;

    /// Computes the cell's next value into `self`.  The grid passes the
    /// previous version of this cell, the neighbor view over the
    /// previous generation, and the global state.
    fn update(&mut self, old_cell: &Self, neighbors: &Vec<Option<Self>>, state: &Self::State)
        ensures
            *final(self) == old_cell.spec_update(neighbors@, *state),
    ;

    /// Constructs a cell with the given coord.
    fn with_coord<C: Coord>(coord: C) -> (r: Self)
        ensures
            r == Self::spec_with_coord(coord.spec_x(), coord.spec_y()),
    ;

    /// Getter for the cell's coordinate.
    fn coord(&self) -> (r: &Self::Coord)
        ensures
            r.spec_x() == self.spec_coord().0,
            r.spec_y() == self.spec_coord().1,
    ;

    /// Setter for the cell's coordinate.
    fn set_coord<C: Coord>(&mut self, coord: &C)
        ensures
            *final(self) == old(self).spec_set_coord(coord.spec_x(), coord.spec_y()),
    ;
}

/// Represents a neighborhood for automata: which coordinates around a
/// given one count as its neighbors.  A strategy is a pure function of
/// the input coordinate; it knows nothing of grid bounds.
pub trait Nhood {
    /// Coords this nhood supports.
    type Coord: Coord;

    /// How many neighbors the strategy names, a fixed arity.
    spec fn spec_count(&self) -> nat;

    /// The ordered neighbor coordinates of `(x, y)`.
    spec fn spec_neighbors(&self, x: int, y: int) -> Seq<(int, int)>;

    /// The strategy always names exactly `spec_count` neighbors.
    proof fn lemma_neighbors_count(&self, x: int, y: int)
        ensures
            self.spec_neighbors(x, y).len() == self.spec_count(),
    ;

    /// Returns, for any given coord, the coordinates of the surrounding
    /// neighbors, in the strategy's fixed order.
    fn neighbors(&self, coord: &Self::Coord) -> (r: Vec<Self::Coord>)
        requires
            i32::MIN < coord.spec_x() < i32::MAX,
            i32::MIN < coord.spec_y() < i32::MAX,
        ensures
            r@.len() == self.spec_count(),
            forall|j: int| 0 <= j < r@.len() ==> {
                let c = self.spec_neighbors(coord.spec_x(), coord.spec_y())[j];
                (#[trigger] r@[j]).spec_x() == c.0 && r@[j].spec_y() == c.1
            },
    ;

    /// Hint for the grid: the strategy's arity.
    fn neighbors_count(&self) -> (r: usize)
        ensures
            r as nat == self.spec_count(),
    ;
}

/// Whether every supplied cell's own coordinate lies within the given
/// extents.
pub open spec fn cells_in_bounds<C: Cell>(new_cells: Seq<C>, rows: int, cols: int) -> bool {
    forall|j: int|
        0 <= j < new_cells.len() ==> 0 <= (#[trigger] new_cells[j]).spec_coord().0
            && new_cells[j].spec_coord().0 < cols && 0 <= new_cells[j].spec_coord().1
            && new_cells[j].spec_coord().1 < rows
}

/// The linear slot a cell addresses on a grid with `cols` columns: the
/// slot of the cell's own coordinate.
pub open spec fn slot_of<C: Cell>(c: C, cols: int) -> int {
    offset_of(c.spec_coord().0, c.spec_coord().1, cols)
}

/// Whether some cell of `new_cells` addresses slot `i`.
pub open spec fn slot_written<C: Cell>(new_cells: Seq<C>, cols: int, i: int) -> bool {
    exists|j: int| 0 <= j < new_cells.len() && slot_of(#[trigger] new_cells[j], cols) == i
}

/// Whether no later cell of `new_cells` addresses the same slot as the
/// cell at `j`: then the cell at `j` is the one that lands in the slot.
pub open spec fn last_writer<C: Cell>(new_cells: Seq<C>, cols: int, j: int) -> bool {
    forall|j2: int|
        j < j2 < new_cells.len() ==> slot_of(#[trigger] new_cells[j2], cols) != slot_of(
            new_cells[j],
            cols,
        )
}

/// A grid stores cells and updates them in lock-step generations; it
/// also owns the global evolution state.
pub trait Grid: Sized {
    /// The cells the grid works with.
    type Cell: Cell;

    /// The coordinates the grid knows how to work with.
    type Coord: Coord;

    /// Structural well-formedness: established by construction and kept
    /// by every operation.
    spec fn wf(&self) -> bool;

    /// The current generation's cells.
    spec fn spec_cells(&self) -> Seq<Self::Cell>;

    /// The current evolution state.
    spec fn spec_state(&self) -> <Self::Cell as Cell>::State;

    /// Number of rows.
    spec fn spec_rows(&self) -> int;

    /// Number of columns.
    spec fn spec_cols(&self) -> int;

    /// One step in evolution.  Every cell advances exactly one
    /// generation: no cell moves, and the evolution state advances
    /// exactly once, after all cells.
    fn update(&mut self)
        requires
            old(self).wf(),
        ensures
            final(self).wf(),
            final(self).spec_rows() == old(self).spec_rows(),
            final(self).spec_cols() == old(self).spec_cols(),
            final(self).spec_cells().len() == old(self).spec_cells().len(),
            forall|i: int|
                0 <= i < old(self).spec_cells().len()
                    ==> (#[trigger] final(self).spec_cells()[i]).spec_coord()
                        == old(self).spec_cells()[i].spec_coord(),
            final(self).spec_state() == old(self).spec_state().spec_update(),
    ;

    /// Getter for the evolution state.
    fn state(&self) -> (r: &<Self::Cell as Cell>::State)
        ensures
            *r == self.spec_state(),
    ;

    /// Getter for all cells of the current generation.
    fn cells(&self) -> (r: &Vec<Self::Cell>)
        ensures
            r@ == self.spec_cells(),
    ;

    /// Returns a `Coord` carrying the grid's extents: `x` is the column
    /// count and `y` the row count.
    fn size(&self) -> (r: Self::Coord)
        requires
            self.wf(),
        ensures
            r.spec_x() == self.spec_cols(),
            r.spec_y() == self.spec_rows(),
    ;

    /// Overwrites, for each supplied cell, the slot the cell's own
    /// coordinate addresses; slots nobody addresses are untouched, and
    /// where several supplied cells address one slot the last wins.
    /// Supplied coordinates must lie within the grid's extents.
    fn set_cells(&mut self, new_cells: Vec<Self::Cell>)
        requires
            old(self).wf(),
            cells_in_bounds(new_cells@, old(self).spec_rows(), old(self).spec_cols()),
        ensures
            final(self).wf(),
            final(self).spec_rows() == old(self).spec_rows(),
            final(self).spec_cols() == old(self).spec_cols(),
            final(self).spec_state() == old(self).spec_state(),
            final(self).spec_cells().len() == old(self).spec_cells().len(),
            forall|i: int|
                0 <= i < old(self).spec_cells().len()
                    && !slot_written(new_cells@, old(self).spec_cols(), i)
                    ==> #[trigger] final(self).spec_cells()[i] == old(self).spec_cells()[i],
            forall|j: int|
                0 <= j < new_cells@.len() && last_writer(new_cells@, old(self).spec_cols(), j)
                    ==> final(self).spec_cells()[slot_of(#[trigger] new_cells@[j], old(self).spec_cols())]
                        == new_cells@[j],
    ;
}

/// Interface to the outer world: called once per finished generation.
pub trait Consumer {
    /// Cells supported by this consumer.
    type Cell: Cell;

    /// Called once when all cells have been updated.  A consumer may
    /// read the grid or seed it through `set_cells`, but must leave it
    /// well formed.
    fn consume<G: Grid<Cell = Self::Cell>>(&mut self, grid: &mut G)
        requires
            old(grid).wf(),
        ensures
            final(grid).wf(),
    ;
}

/// Interlayer between grid and consumer(s): drives the evolution.
pub trait Engine {
    /// Structural well-formedness of the engine and what it owns.
    spec fn wf(&self) -> bool;

    /// Runs the evolution a fixed number of times.
    fn run_times(&mut self, times: u64)
        requires
            old(self).wf(),
        ensures
            final(self).wf(),
    ;
}

} // verus!
