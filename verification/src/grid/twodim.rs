//! 2D grid with a neighbor-view iterator and a custom internal coordinate.

use vstd::prelude::*;

use crate::traits::Cell;
use crate::traits::Coord;
use crate::traits::EvolutionState;
use crate::traits::Grid;
use crate::traits::Nhood;
use crate::traits::cells_in_bounds;
use crate::traits::last_writer;
use crate::traits::slot_of;
use crate::traits::slot_written;

pub mod coord;
pub mod iter;

pub use self::coord::GridCoord;

use self::coord::{lemma_from_offset_roundtrip, lemma_offset_roundtrip, offset_of, x_of, y_of};
use self::iter::{collect_view, spec_view_row};

verus! {

/// Whether one entry of a neighbor-index table is right for the
/// neighbor coordinate `c` on a grid with the given extents: `Some` of
/// the neighbor's linear slot where `c` lies within the extents, `None`
/// where it falls outside.
pub open spec fn spec_entry_ok(e: Option<usize>, c: (int, int), rows: int, cols: int) -> bool {
    if 0 <= c.0 < cols && 0 <= c.1 < rows {
        e matches Some(k) && k as int == offset_of(c.0, c.1, cols)
    } else {
        e is None
    }
}

/// The next value of the cell at slot `i`: the previous cell, updated
/// against its neighbor view over the previous generation and the
/// evolution state, with its coordinate pinned back to the slot's own.
/// This is a pure function of the previous generation, the neighbor
/// table, the state and the extents: the order in which slots are
/// walked, and any partitioning of them, cannot influence it.
pub open spec fn spec_next_cell<C: Cell>(
    prev: Seq<C>,
    row: Seq<Option<usize>>,
    state: C::State,
    cols: int,
    i: int,
) -> C {
    prev[i].spec_update(spec_view_row(prev, row), state).spec_set_coord(
        x_of(i, cols),
        y_of(i, cols),
    )
}

/// Extents small enough for every slot also keep each single extent
/// within `i32` range.
proof fn lemma_extent_bounds(rows: int, cols: int)
    requires
        1 <= rows,
        1 <= cols,
        rows * cols <= i32::MAX as int,
    ensures
        rows <= i32::MAX as int,
        cols <= i32::MAX as int,
{
    assert(rows <= rows * cols && cols <= rows * cols) by (nonlinear_arith)
        requires
            1 <= rows,
            1 <= cols,
    ;
}

/// Whether a partition layout is right for `len` slots: at least one
/// partition, each non-empty and in range, the first starting at 0, the
/// last ending at `len`, and each starting where the one before it
/// ended.  So the partitions are pairwise disjoint and together cover
/// every slot exactly once.
pub open spec fn spec_parts_ok(parts: Seq<(usize, usize)>, len: int) -> bool {
    &&& parts.len() >= 1
    &&& parts[0].0 == 0
    &&& parts[parts.len() - 1].1 == len
    &&& forall|t: int| 0 <= t < parts.len() ==> (#[trigger] parts[t]).0 < parts[t].1 <= len
    &&& forall|t: int| 0 < t < parts.len() ==> (#[trigger] parts[t]).0 == parts[t - 1].1
}

/// Every slot of a tiled index range lies in some partition at or after
/// `t`, as long as partition `t` starts at or before the slot.
proof fn lemma_parts_locate_from(parts: Seq<(usize, usize)>, len: int, i: int, t: int)
    requires
        spec_parts_ok(parts, len),
        0 <= t < parts.len(),
        parts[t].0 <= i < len,
    ensures
        exists|q: int| t <= q < parts.len() && (#[trigger] parts[q]).0 <= i < parts[q].1,
    decreases parts.len() - t,
{
    if i < parts[t].1 {
        assert(parts[t].0 <= i < parts[t].1);
    } else {
        assert(t + 1 < parts.len()) by {
            if t == parts.len() - 1 {
                assert(parts[t].1 == len);
            }
        }
        assert(parts[t + 1].0 == parts[t].1);
        lemma_parts_locate_from(parts, len, i, t + 1);
    }
}

/// Coverage: every slot of a tiled index range lies in one of the
/// partitions, so no cell is skipped by the partitioned update.
pub proof fn lemma_parts_locate(parts: Seq<(usize, usize)>, len: int, i: int)
    requires
        spec_parts_ok(parts, len),
        0 <= i < len,
    ensures
        exists|q: int| 0 <= q < parts.len() && (#[trigger] parts[q]).0 <= i < parts[q].1,
{
    lemma_parts_locate_from(parts, len, i, 0);
}

/// Disjointness: partitions that come earlier in a tiled layout end at
/// or before a later partition starts, so no two partitions share a
/// slot.
pub proof fn lemma_parts_monotonic(parts: Seq<(usize, usize)>, len: int, q: int, t: int)
    requires
        spec_parts_ok(parts, len),
        0 <= q < t < parts.len(),
    ensures
        parts[q].1 <= parts[t].0,
    decreases t - q,
{
    if q + 1 == t {
    } else {
        lemma_parts_monotonic(parts, len, q + 1, t);
    }
}

/// Whether `row` is the right neighbor-index table row for slot `i` of
/// a grid with the given strategy and extents: one entry per neighbor
/// the strategy names at the slot's own coordinate, each resolved
/// against the extents.
pub open spec fn spec_row_ok_for<N: Nhood>(
    row: Seq<Option<usize>>,
    nh: N,
    rows: int,
    cols: int,
    i: int,
) -> bool {
    let nbs = nh.spec_neighbors(x_of(i, cols), y_of(i, cols));
    &&& row.len() == nh.spec_count()
    &&& forall|j: int| 0 <= j < row.len() ==> spec_entry_ok(#[trigger] row[j], nbs[j], rows, cols)
}

/// 2D grid, implemented with two buffers that swap roles on every
/// evolution step: the old buffer serves read-only neighbor data while
/// the new one is written.  Cells sit in a one-dimensional `Vec`,
/// row-major; a neighbor-index table is precomputed once per slot at
/// construction, and the flat index range is split once into contiguous
/// partitions for the partitioned update path.
pub struct TwodimGrid<C, N> where C: Cell, N: Nhood<Coord = GridCoord> {
    cells: Vec<C>,
    old_cells: Vec<C>,
    evolution_state: C::State,
    nhood: N,
    neighbors: Vec<Vec<Option<usize>>>,
    dimensions: GridCoord,
    rows: u32,
    cols: u32,
    parts: Vec<(usize, usize)>,
}

impl<C, N> TwodimGrid<C, N> where C: Cell, N: Nhood<Coord = GridCoord> {
    /// Number of cell slots.
    pub open spec fn spec_len(&self) -> int {
        self.spec_rows() * self.spec_cols()
    }

    /// The neighborhood strategy the grid was built with.
    pub closed spec fn spec_nhood(&self) -> N {
        self.nhood
    }

    /// The precomputed neighbor-index table, one row per cell slot.
    pub closed spec fn spec_table(&self) -> Seq<Seq<Option<usize>>> {
        Seq::new(self.neighbors@.len(), |i: int| self.neighbors@[i]@)
    }

    /// The fixed partition layout of the flat index range.
    pub closed spec fn spec_parts(&self) -> Seq<(usize, usize)> {
        self.parts@
    }

    /// Whether table row `i` is right: one entry per neighbor named by
    /// the strategy at the slot's own coordinate, each entry resolved
    /// against the grid extents.
    pub open spec fn spec_row_ok(&self, i: int) -> bool {
        spec_row_ok_for(
            self.spec_table()[i],
            self.spec_nhood(),
            self.spec_rows(),
            self.spec_cols(),
            i,
        )
    }

    /// Structural invariant: extents are positive and small enough for
    /// every slot to fit an `i32` coordinate, the buffers and the table
    /// all hold one entry per slot, both buffers' cells sit at the
    /// coordinate their slot linearizes to, every table row is resolved
    /// against the extents, and the partitions tile the index range.
    pub closed spec fn wf_inner(&self) -> bool {
        &&& 1 <= self.spec_rows()
        &&& 1 <= self.spec_cols()
        &&& self.spec_len() <= i32::MAX as int
        &&& self.cells@.len() == self.spec_len()
        &&& self.old_cells@.len() == self.spec_len()
        &&& self.neighbors@.len() == self.spec_len()
        &&& self.dimensions.x as int == self.spec_cols()
        &&& self.dimensions.y as int == self.spec_rows()
        &&& forall|i: int|
            0 <= i < self.spec_len() ==> (#[trigger] self.cells@[i]).spec_coord() == (
            x_of(i, self.spec_cols()),
            y_of(i, self.spec_cols()),
            )
        &&& forall|i: int|
            0 <= i < self.spec_len() ==> (#[trigger] self.old_cells@[i]).spec_coord() == (
            x_of(i, self.spec_cols()),
            y_of(i, self.spec_cols()),
            )
        &&& forall|i: int| 0 <= i < self.spec_len() ==> self.spec_row_ok(i)
        &&& spec_parts_ok(self.parts@, self.spec_len())
    }

    /// The next generation's cell at slot `i`.
    pub open spec fn spec_next(&self, i: int) -> C {
        spec_next_cell(
            self.spec_cells(),
            self.spec_table()[i],
            self.spec_state(),
            self.spec_cols(),
            i,
        )
    }

    /// The linear slot that an in-bounds coordinate addresses in the
    /// flat cell buffer.
    pub fn offset<Crd: Coord>(&self, coord: &Crd) -> (r: usize)
        requires
            1 <= self.spec_rows(),
            1 <= self.spec_cols(),
            self.spec_len() <= i32::MAX as int,
            0 <= coord.spec_x() && coord.spec_x() < self.spec_cols(),
            0 <= coord.spec_y() && coord.spec_y() < self.spec_rows(),
        ensures
            r as int == offset_of(coord.spec_x(), coord.spec_y(), self.spec_cols()),
            (r as int) < self.spec_len(),
    {
        proof {
            lemma_extent_bounds(self.spec_rows(), self.spec_cols());
            lemma_offset_roundtrip(
                coord.spec_x(),
                coord.spec_y(),
                self.spec_rows(),
                self.spec_cols(),
            );
        }
        (coord.y() * self.cols as i32 + coord.x()) as usize
    }

    /// Constructs a grid with the given extents, neighborhood strategy,
    /// initial evolution state and worker count.  Every slot starts with
    /// the cell its rule builds for the slot's coordinate.
    pub fn new(rows: u32, cols: u32, nhood: N, state: C::State, threads: u32) -> (r: Self)
        requires
            1 <= rows,
            1 <= cols,
            rows as int * cols as int <= i32::MAX as int,
        ensures
            r.wf(),
            r.spec_rows() == rows as int,
            r.spec_cols() == cols as int,
            r.spec_cells().len() == rows as int * cols as int,
            r.spec_state() == state,
            r.spec_nhood() == nhood,
            r.spec_parts().len() <= (if threads < 1 {
                1int
            } else {
                threads as int
            }),
            forall|i: int|
                0 <= i < r.spec_len() ==> (#[trigger] r.spec_cells()[i]) == C::spec_with_coord(
                    x_of(i, cols as int),
                    y_of(i, cols as int),
                ),
    {
        proof {
            lemma_extent_bounds(rows as int, cols as int);
        }
        let mut grid = TwodimGrid {
            cells: Vec::new(),
            old_cells: Vec::new(),
            evolution_state: state,
            nhood,
            neighbors: Vec::new(),
            rows,
            cols,
            dimensions: GridCoord::from_2d(cols as i32, rows as i32),
            parts: Vec::new(),
        };
        grid.init(threads);
        grid
    }

    /// Fills both buffers with freshly built cells, precomputes the
    /// neighbor-index table and splits the index range into partitions.
    fn init(&mut self, threads: u32)
        requires
            1 <= old(self).rows,
            1 <= old(self).cols,
            old(self).spec_len() <= i32::MAX as int,
            old(self).cells@.len() == 0,
            old(self).old_cells@.len() == 0,
            old(self).neighbors@.len() == 0,
            old(self).parts@.len() == 0,
            old(self).dimensions.x as int == old(self).spec_cols(),
            old(self).dimensions.y as int == old(self).spec_rows(),
        ensures
            final(self).wf_inner(),
            final(self).parts@.len() <= (if threads < 1 {
                1int
            } else {
                threads as int
            }),
            final(self).rows == old(self).rows,
            final(self).cols == old(self).cols,
            final(self).evolution_state == old(self).evolution_state,
            final(self).nhood == old(self).nhood,
            forall|i: int|
                0 <= i < final(self).spec_len() ==> (#[trigger] final(self).spec_cells()[i])
                    == C::spec_with_coord(
                    x_of(i, old(self).spec_cols()),
                    y_of(i, old(self).spec_cols()),
                ),
    {
        let cells_count: usize = (self.rows as usize) * (self.cols as usize);
        let ghost orig = *self;

        let mut offset: usize = 0;
        while offset < cells_count
            invariant
                self.rows == orig.rows,
                self.cols == orig.cols,
                self.evolution_state == orig.evolution_state,
                self.nhood == orig.nhood,
                self.dimensions == orig.dimensions,
                self.parts@.len() == 0,
                1 <= self.spec_rows(),
                1 <= self.spec_cols(),
                self.spec_len() <= i32::MAX as int,
                cells_count as int == self.spec_len(),
                offset <= cells_count,
                self.cells@.len() == offset as int,
                self.old_cells@.len() == offset as int,
                self.neighbors@.len() == offset as int,
                forall|i: int|
                    0 <= i < offset as int ==> (#[trigger] self.cells@[i]) == C::spec_with_coord(
                        x_of(i, self.spec_cols()),
                        y_of(i, self.spec_cols()),
                    ),
                forall|i: int|
                    0 <= i < offset as int ==> (#[trigger] self.cells@[i]).spec_coord() == (
                    x_of(i, self.spec_cols()),
                    y_of(i, self.spec_cols()),
                    ),
                forall|i: int|
                    0 <= i < offset as int ==> (#[trigger] self.old_cells@[i]).spec_coord() == (
                    x_of(i, self.spec_cols()),
                    y_of(i, self.spec_cols()),
                    ),
                forall|i: int|
                    0 <= i < offset as int ==> spec_row_ok_for(
                        (#[trigger] self.neighbors@[i])@,
                        self.spec_nhood(),
                        self.spec_rows(),
                        self.spec_cols(),
                        i,
                    ),
            decreases cells_count as int - offset as int,
        {
            proof {
                lemma_extent_bounds(self.spec_rows(), self.spec_cols());
                lemma_from_offset_roundtrip(offset as int, self.spec_rows(), self.spec_cols());
            }
            let coord = GridCoord::from_offset(offset as i32, self.rows as i32, self.cols as i32);

            // init neighbors
            let neighbors = self.get_neighbors(&coord);
            self.neighbors.push(neighbors);

            // init cells
            let cell = C::with_coord(coord);
            proof {
                C::lemma_with_coord_pins_coord(coord.x as int, coord.y as int);
            }
            self.cells.push(cell);
            self.old_cells.push(cell);

            offset += 1;
        }

        // Split border indices, used by the partitioned update to hand
        // each worker its own contiguous range of slots.
        self.init_parts(threads);

        proof {
            assert forall|i: int| 0 <= i < self.spec_len() implies self.spec_row_ok(i) by {
                assert(self.spec_table()[i] == self.neighbors@[i]@);
            }
            assert forall|i: int|
                0 <= i < self.spec_len() implies (#[trigger] self.spec_cells()[i])
                == C::spec_with_coord(x_of(i, self.spec_cols()), y_of(i, self.spec_cols())) by {
                assert(self.spec_cells()[i] == self.cells@[i]);
            }
        }
    }

    /// Resolves the neighborhood strategy's coordinates around `coord`
    /// against the grid extents: in-bounds neighbors become their linear
    /// slot, out-of-bounds ones become `None`.
    fn get_neighbors(&self, coord: &GridCoord) -> (r: Vec<Option<usize>>)
        requires
            1 <= self.spec_rows(),
            1 <= self.spec_cols(),
            self.spec_len() <= i32::MAX as int,
            0 <= (coord.x as int) && (coord.x as int) < self.spec_cols(),
            0 <= (coord.y as int) && (coord.y as int) < self.spec_rows(),
        ensures
            r@.len() == self.spec_nhood().spec_count(),
            forall|j: int|
                0 <= j < r@.len() ==> spec_entry_ok(
                    #[trigger] r@[j],
                    self.spec_nhood().spec_neighbors(coord.x as int, coord.y as int)[j],
                    self.spec_rows(),
                    self.spec_cols(),
                ),
    {
        proof {
            lemma_extent_bounds(self.spec_rows(), self.spec_cols());
        }
        let cols = self.cols as i32;
        let rows = self.rows as i32;

        let nb_coords = self.nhood.neighbors(coord);
        let ghost nbs = self.spec_nhood().spec_neighbors(coord.x as int, coord.y as int);

        let mut neighbors: Vec<Option<usize>> = Vec::new();
        let mut j: usize = 0;
        while j < nb_coords.len()
            invariant
                1 <= self.spec_rows(),
                1 <= self.spec_cols(),
                self.spec_len() <= i32::MAX as int,
                cols as int == self.spec_cols(),
                rows as int == self.spec_rows(),
                j <= nb_coords@.len(),
                nbs == self.spec_nhood().spec_neighbors(coord.x as int, coord.y as int),
                nb_coords@.len() == self.spec_nhood().spec_count(),
                forall|k: int|
                    0 <= k < nb_coords@.len() ==> (#[trigger] nb_coords@[k]).x as int == nbs[k].0
                        && nb_coords@[k].y as int == nbs[k].1,
                neighbors@.len() == j as int,
                forall|k: int|
                    0 <= k < j as int ==> spec_entry_ok(
                        #[trigger] neighbors@[k],
                        nbs[k],
                        self.spec_rows(),
                        self.spec_cols(),
                    ),
            decreases nb_coords@.len() - j as int,
        {
            let c = nb_coords[j];
            if c.x >= 0 && c.x < cols && c.y >= 0 && c.y < rows {
                let slot = self.offset(&c);
                neighbors.push(Some(slot));
            } else {
                neighbors.push(None);
            }
            j += 1;
        }
        neighbors
    }

    /// Splits the index range `[0, len)` into at most `threads` (at
    /// least one) contiguous, non-overlapping partitions that together
    /// cover it; fixed for the grid's lifetime.
    fn init_parts(&mut self, threads: u32)
        requires
            old(self).parts@.len() == 0,
            1 <= old(self).spec_rows(),
            1 <= old(self).spec_cols(),
            old(self).spec_len() <= i32::MAX as int,
        ensures
            spec_parts_ok(final(self).parts@, final(self).spec_len()),
            final(self).parts@.len() <= (if threads < 1 {
                1int
            } else {
                threads as int
            }),
            final(self).cells == old(self).cells,
            final(self).old_cells == old(self).old_cells,
            final(self).evolution_state == old(self).evolution_state,
            final(self).nhood == old(self).nhood,
            final(self).neighbors == old(self).neighbors,
            final(self).dimensions == old(self).dimensions,
            final(self).rows == old(self).rows,
            final(self).cols == old(self).cols,
    {
        proof {
            assert(self.spec_len() >= 1) by (nonlinear_arith)
                requires
                    1 <= self.spec_rows(),
                    1 <= self.spec_cols(),
            ;
        }
        let len: usize = (self.rows as usize) * (self.cols as usize);
        let t_raw: usize = if threads < 1 {
            1
        } else {
            threads as usize
        };
        let t: usize = if t_raw > len {
            len
        } else {
            t_raw
        };
        let chunk: usize = (len + t - 1) / t;
        proof {
            vstd::arithmetic::div_mod::lemma_div_is_ordered(
                t as int,
                len as int + t as int - 1,
                t as int,
            );
            vstd::arithmetic::div_mod::lemma_div_by_self(t as int);
        }
        assert(1 <= chunk);
        assert(len + t - 1 < usize::MAX as int) by {
            assert(len <= i32::MAX as int && t <= len);
        }

        let ghost orig = *self;
        let mut start: usize = 0;
        while start < len
            invariant
                1 <= chunk,
                len as int == self.spec_len(),
                1 <= len,
                start <= len,
                self.cells == orig.cells,
                self.old_cells == orig.old_cells,
                self.evolution_state == orig.evolution_state,
                self.nhood == orig.nhood,
                self.neighbors == orig.neighbors,
                self.dimensions == orig.dimensions,
                self.rows == orig.rows,
                self.cols == orig.cols,
                start == 0 ==> self.parts@.len() == 0,
                start > 0 ==> self.parts@.len() >= 1 && self.parts@[0].0 == 0 && self.parts@[
                    self.parts@.len() - 1
                ].1 == start,
                start < len ==> start as int == (self.parts@.len() as int) * (chunk as int),
                self.parts@.len() >= 1 ==> ((self.parts@.len() as int - 1) * (chunk as int))
                    < (len as int),
                forall|q: int|
                    0 <= q < self.parts@.len() ==> (#[trigger] self.parts@[q]).0 < self.parts@[q].1
                        <= len,
                forall|q: int|
                    0 < q < self.parts@.len() ==> (#[trigger] self.parts@[q]).0 == self.parts@[q
                        - 1].1,
            decreases len as int - start as int,
        {
            let end: usize = if len - start < chunk {
                len
            } else {
                start + chunk
            };
            self.parts.push((start, end));
            proof {
                assert((self.parts@.len() as int) * (chunk as int) == (self.parts@.len() as int
                    - 1) * (chunk as int) + (chunk as int)) by (nonlinear_arith);
            }
            start = end;
        }

        // At most `t` partitions came out: every partition but the last
        // has exactly `chunk` slots, and `t` partitions of that size
        // already cover the whole range.
        proof {
            let p = self.parts@.len() as int;
            vstd::arithmetic::div_mod::lemma_fundamental_div_mod(
                len as int + t as int - 1,
                t as int,
            );
            assert((t as int) * (chunk as int) >= len as int);
            if p > t as int {
                vstd::arithmetic::mul::lemma_mul_inequality(t as int, p - 1, chunk as int);
                assert((t as int) * (chunk as int) == (chunk as int) * (t as int))
                    by (nonlinear_arith);
                assert(((p - 1) * (chunk as int)) == ((chunk as int) * (p - 1)))
                    by (nonlinear_arith);
                assert(false);
            }
        }
    }
}

/// How many slots the first `t` partitions of a layout cover.
pub open spec fn spec_covered(parts: Seq<(usize, usize)>, t: int) -> int {
    if t <= 0 {
        0
    } else {
        parts[t - 1].1 as int
    }
}

/// In a right table row, every present neighbor slot lies inside the
/// flat buffer.
proof fn lemma_row_entries_in_range<N: Nhood>(
    row: Seq<Option<usize>>,
    nh: N,
    rows: int,
    cols: int,
    i: int,
)
    requires
        1 <= rows,
        1 <= cols,
        spec_row_ok_for(row, nh, rows, cols, i),
    ensures
        forall|j: int|
            0 <= j < row.len() ==> ((#[trigger] row[j]) matches Some(k) ==> (k as int) < rows
                * cols),
{
    let nbs = nh.spec_neighbors(x_of(i, cols), y_of(i, cols));
    assert forall|j: int|
        0 <= j < row.len() implies ((#[trigger] row[j]) matches Some(k) ==> (k as int) < rows
        * cols) by {
        let c = nbs[j];
        if 0 <= c.0 < cols && 0 <= c.1 < rows {
            lemma_offset_roundtrip(c.0, c.1, rows, cols);
        }
    }
}

/// Computes the next value of the cell at slot `i` from the previous
/// generation: builds the neighbor view over `prev`, runs the rule
/// against it and the evolution state, and pins the slot's own
/// coordinate back onto the result.
fn step_cell<C: Cell>(
    prev: &Vec<C>,
    row: &Vec<Option<usize>>,
    state: &C::State,
    rows: u32,
    cols: u32,
    i: usize,
) -> (r: C)
    requires
        1 <= rows,
        1 <= cols,
        rows as int * cols as int <= i32::MAX as int,
        prev@.len() == rows as int * cols as int,
        (i as int) < rows as int * cols as int,
        forall|j: int|
            0 <= j < row@.len() ==> ((#[trigger] row@[j]) matches Some(k) ==> (k as int)
                < prev@.len()),
    ensures
        r == spec_next_cell(prev@, row@, *state, cols as int, i as int),
{
    proof {
        lemma_extent_bounds(rows as int, cols as int);
        lemma_from_offset_roundtrip(i as int, rows as int, cols as int);
    }
    let count = row.len();
    let view = collect_view(prev, row, count);
    proof {
        assert(row@.take(count as int) =~= row@);
    }

    let mut cell = prev[i];
    let old_cell = cell;
    cell.update(&old_cell, &view, state);

    // The rule must not relocate the cell: pin the slot's coordinate.
    let cx = (i % (cols as usize)) as i32;
    let cy = (i / (cols as usize)) as i32;
    let pin = GridCoord { x: cx, y: cy };
    cell.set_coord(&pin);
    cell
}

/// One step of sparse cell replacement: writing the supplied cell at
/// index `k` into the slot its coordinate addresses keeps both halves
/// of the replacement contract, extended from the first `k` supplied
/// cells to the first `k + 1`.
proof fn lemma_set_cells_step<C: Cell>(
    new_cells: Seq<C>,
    cols: int,
    orig_cells: Seq<C>,
    pre: Seq<C>,
    post: Seq<C>,
    k: int,
)
    requires
        0 <= k < new_cells.len(),
        pre.len() == post.len(),
        forall|m: int|
            0 <= m < new_cells.len() ==> 0 <= slot_of(#[trigger] new_cells[m], cols)
                && slot_of(new_cells[m], cols) < pre.len(),
        post == pre.update(slot_of(new_cells[k], cols), new_cells[k]),
        forall|i: int|
            0 <= i < pre.len() && !slot_written(new_cells.take(k), cols, i) ==> #[trigger] pre[i]
                == orig_cells[i],
        forall|j: int|
            0 <= j < k && last_writer(new_cells.take(k), cols, j) ==> pre[slot_of(
                #[trigger] new_cells[j],
                cols,
            )] == new_cells[j],
    ensures
        forall|i: int|
            0 <= i < post.len() && !slot_written(new_cells.take(k + 1), cols, i)
                ==> #[trigger] post[i] == orig_cells[i],
        forall|j: int|
            0 <= j < k + 1 && last_writer(new_cells.take(k + 1), cols, j) ==> post[slot_of(
                #[trigger] new_cells[j],
                cols,
            )] == new_cells[j],
{
    broadcast use vstd::seq_lib::group_seq_properties;

    let s_k = slot_of(new_cells[k], cols);
    let tk = new_cells.take(k);
    let tk1 = new_cells.take(k + 1);
    assert(forall|m: int| 0 <= m < k + 1 ==> #[trigger] tk1[m] == new_cells[m]);
    assert(forall|m: int| 0 <= m < k ==> #[trigger] tk[m] == new_cells[m]);

    assert forall|i: int|
        0 <= i < post.len() && !slot_written(tk1, cols, i) implies #[trigger] post[i]
        == orig_cells[i] by {
        assert(slot_of(tk1[k], cols) == s_k);
        if i == s_k {
            assert(slot_written(tk1, cols, i));
        }
        if slot_written(tk, cols, i) {
            let j = choose|j: int| 0 <= j < tk.len() && slot_of(#[trigger] tk[j], cols) == i;
            assert(slot_of(tk1[j], cols) == i);
            assert(slot_written(tk1, cols, i));
        }
    }

    assert forall|j: int|
        0 <= j < k + 1 && last_writer(tk1, cols, j) implies post[slot_of(
        #[trigger] new_cells[j],
        cols,
    )] == new_cells[j] by {
        if j == k {
            assert(slot_of(new_cells[j], cols) == s_k);
            assert(post[s_k] == new_cells[k]);
            assert(post[slot_of(new_cells[j], cols)] == new_cells[j]);
        } else {
            assert(slot_of(tk1[k], cols) != slot_of(tk1[j], cols));
            assert forall|j2: int|
                j < j2 < tk.len() implies slot_of(#[trigger] tk[j2], cols) != slot_of(
                tk[j],
                cols,
            ) by {
                assert(slot_of(tk1[j2], cols) != slot_of(tk1[j], cols));
            }
            assert(last_writer(tk, cols, j));
            assert(pre[slot_of(new_cells[j], cols)] == new_cells[j]);
            assert(slot_of(new_cells[j], cols) != s_k);
            assert(post[slot_of(new_cells[j], cols)] == pre[slot_of(new_cells[j], cols)]);
            assert(post[slot_of(new_cells[j], cols)] == new_cells[j]);
        }
    }
}

impl<C, N> Grid for TwodimGrid<C, N> where C: Cell, N: Nhood<Coord = GridCoord> {
    type Cell = C;

    type Coord = GridCoord;

    closed spec fn wf(&self) -> bool {
        self.wf_inner()
    }

    closed spec fn spec_cells(&self) -> Seq<C> {
        self.cells@
    }

    closed spec fn spec_state(&self) -> C::State {
        self.evolution_state
    }

    closed spec fn spec_rows(&self) -> int {
        self.rows as int
    }

    closed spec fn spec_cols(&self) -> int {
        self.cols as int
    }

    fn update(&mut self)
        ensures
            forall|i: int|
                0 <= i < old(self).spec_cells().len() ==> #[trigger] final(self).spec_cells()[i]
                    == old(self).spec_next(i),
            final(self).spec_table() == old(self).spec_table(),
            final(self).spec_nhood() == old(self).spec_nhood(),
            final(self).spec_parts() == old(self).spec_parts(),
    {
        let ghost orig = *self;

        // What was current becomes the read-only previous generation;
        // the former previous buffer becomes the write target.
        std::mem::swap(&mut self.cells, &mut self.old_cells);

        let parts_count = self.parts.len();
        let mut t: usize = 0;
        while t < parts_count
            invariant
                orig.wf_inner(),
                self.rows == orig.rows,
                self.cols == orig.cols,
                self.nhood == orig.nhood,
                self.neighbors == orig.neighbors,
                self.evolution_state == orig.evolution_state,
                self.parts == orig.parts,
                self.dimensions == orig.dimensions,
                self.old_cells@ == orig.cells@,
                t <= parts_count,
                parts_count == self.parts@.len(),
                self.cells@.len() == orig.spec_len(),
                forall|i: int|
                    0 <= i < spec_covered(self.parts@, t as int) ==> #[trigger] self.cells@[i]
                        == orig.spec_next(i),
                forall|i: int|
                    spec_covered(self.parts@, t as int) <= i < orig.spec_len() ==> (
                    #[trigger] self.cells@[i]).spec_coord() == (
                    x_of(i, orig.spec_cols()),
                    y_of(i, orig.spec_cols()),
                    ),
            decreases parts_count - t,
        {
            let p = self.parts[t];
            let start = p.0;
            let end = p.1;

            let mut i = start;
            while i < end
                invariant
                    orig.wf_inner(),
                    self.rows == orig.rows,
                    self.cols == orig.cols,
                    self.nhood == orig.nhood,
                    self.neighbors == orig.neighbors,
                    self.evolution_state == orig.evolution_state,
                    self.parts == orig.parts,
                    self.dimensions == orig.dimensions,
                    self.old_cells@ == orig.cells@,
                    self.cells@.len() == orig.spec_len(),
                    (t as int) < self.parts@.len(),
                    p == self.parts@[t as int],
                    start == p.0,
                    end == p.1,
                    start <= i <= end,
                    end as int <= orig.spec_len(),
                    forall|k: int|
                        0 <= k < i as int ==> #[trigger] self.cells@[k] == orig.spec_next(k),
                    forall|k: int|
                        i as int <= k < orig.spec_len() ==> (#[trigger] self.cells@[k]).spec_coord()
                            == (x_of(k, orig.spec_cols()), y_of(k, orig.spec_cols())),
                decreases end - i,
            {
                proof {
                    assert(orig.spec_row_ok(i as int));
                    assert(orig.spec_table()[i as int] == self.neighbors@[i as int]@);
                    lemma_row_entries_in_range(
                        self.neighbors@[i as int]@,
                        orig.spec_nhood(),
                        orig.spec_rows(),
                        orig.spec_cols(),
                        i as int,
                    );
                }
                let row = &self.neighbors[i];
                let new_cell = step_cell(
                    &self.old_cells,
                    row,
                    &self.evolution_state,
                    self.rows,
                    self.cols,
                    i,
                );
                proof {
                    let x = x_of(i as int, orig.spec_cols());
                    let y = y_of(i as int, orig.spec_cols());
                    lemma_from_offset_roundtrip(i as int, orig.spec_rows(), orig.spec_cols());
                    lemma_extent_bounds(orig.spec_rows(), orig.spec_cols());
                    orig.spec_cells()[i as int].spec_update(
                        spec_view_row(orig.spec_cells(), orig.spec_table()[i as int]),
                        orig.spec_state(),
                    ).lemma_set_coord_pins_coord(x, y);
                }
                self.cells[i] = new_cell;
                i += 1;
            }
            t += 1;
        }

        // After all cells have settled, advance the evolution state,
        // exactly once.
        self.evolution_state.update();

        proof {
            assert(spec_covered(self.parts@, parts_count as int) == orig.spec_len());
            assert(self.spec_table() =~= orig.spec_table());
            assert forall|i: int| 0 <= i < self.spec_len() implies self.spec_row_ok(i) by {
                assert(orig.spec_row_ok(i));
                assert(self.spec_table()[i] == orig.spec_table()[i]);
            }
            assert forall|i: int|
                0 <= i < self.spec_len() implies (#[trigger] self.cells@[i]).spec_coord() == (
                x_of(i, self.spec_cols()),
                y_of(i, self.spec_cols()),
            ) by {
                lemma_extent_bounds(orig.spec_rows(), orig.spec_cols());
                lemma_from_offset_roundtrip(i, orig.spec_rows(), orig.spec_cols());
                assert(self.cells@[i] == orig.spec_next(i));
                orig.spec_cells()[i].spec_update(
                    spec_view_row(orig.spec_cells(), orig.spec_table()[i]),
                    orig.spec_state(),
                ).lemma_set_coord_pins_coord(
                    x_of(i, orig.spec_cols()),
                    y_of(i, orig.spec_cols()),
                );
            }
        }
    }

    fn state(&self) -> (r: &C::State) {
        &self.evolution_state
    }

    fn cells(&self) -> (r: &Vec<C>) {
        &self.cells
    }

    fn size(&self) -> (r: GridCoord) {
        self.dimensions
    }

    fn set_cells(&mut self, new_cells: Vec<C>) {
        let ghost orig = *self;
        let ghost cols = orig.spec_cols();
        let mut idx: usize = 0;
        while idx < new_cells.len()
            invariant
                orig.wf_inner(),
                self.rows == orig.rows,
                self.cols == orig.cols,
                self.nhood == orig.nhood,
                self.neighbors == orig.neighbors,
                self.evolution_state == orig.evolution_state,
                self.parts == orig.parts,
                self.dimensions == orig.dimensions,
                self.old_cells == orig.old_cells,
                cols == orig.spec_cols(),
                idx <= new_cells@.len(),
                self.cells@.len() == orig.spec_len(),
                cells_in_bounds(new_cells@, orig.spec_rows(), cols),
                forall|i: int|
                    0 <= i < orig.spec_len() && !slot_written(
                        new_cells@.take(idx as int),
                        cols,
                        i,
                    ) ==> #[trigger] self.cells@[i] == orig.spec_cells()[i],
                forall|k: int|
                    0 <= k < idx as int && last_writer(
                        new_cells@.take(idx as int),
                        cols,
                        k,
                    ) ==> self.cells@[slot_of(#[trigger] new_cells@[k], cols)]
                        == new_cells@[k],
                forall|i: int|
                    0 <= i < orig.spec_len() ==> (#[trigger] self.cells@[i]).spec_coord() == (
                    x_of(i, cols),
                    y_of(i, cols),
                    ),
            decreases new_cells@.len() - idx as int,
        {
            let cell = new_cells[idx];
            let index = self.offset(cell.coord());
            proof {
                lemma_offset_roundtrip(
                    cell.spec_coord().0,
                    cell.spec_coord().1,
                    orig.spec_rows(),
                    orig.spec_cols(),
                );
            }
            let ghost pre = self.cells@;
            self.cells[index] = cell;
            idx += 1;
            proof {
                assert forall|m: int|
                    0 <= m < new_cells@.len() implies 0 <= slot_of(#[trigger] new_cells@[m], cols)
                    && slot_of(new_cells@[m], cols) < orig.spec_len() by {
                    let c = new_cells@[m].spec_coord();
                    lemma_offset_roundtrip(c.0, c.1, orig.spec_rows(), orig.spec_cols());
                }
                assert(index as int == slot_of(new_cells@[idx as int - 1], cols));
                lemma_set_cells_step(
                    new_cells@,
                    cols,
                    orig.spec_cells(),
                    pre,
                    self.cells@,
                    idx as int - 1,
                );
            }
        }
        proof {
            assert(new_cells@.take(new_cells@.len() as int) =~= new_cells@);
            assert(self.spec_table() =~= orig.spec_table());
            assert forall|i: int| 0 <= i < self.spec_len() implies self.spec_row_ok(i) by {
                assert(orig.spec_row_ok(i));
                assert(self.spec_table()[i] == orig.spec_table()[i]);
            }
        }
    }
}

impl<C, N> TwodimGrid<C, N> where C: Cell, N: Nhood<Coord = GridCoord> {
    /// The fixed partition layout as plain values, for an external
    /// dispatcher that hands one partition to each worker.
    pub fn partitions(&self) -> (r: Vec<(usize, usize)>)
        ensures
            r@ == self.spec_parts(),
    {
        let mut out: Vec<(usize, usize)> = Vec::new();
        let mut t: usize = 0;
        while t < self.parts.len()
            invariant
                t <= self.parts@.len(),
                out@.len() == t as int,
                forall|q: int| 0 <= q < t as int ==> #[trigger] out@[q] == self.parts@[q],
            decreases self.parts@.len() - t as int,
        {
            let p = self.parts[t];
            out.push(p);
            t += 1;
        }
        proof {
            assert(out@ =~= self.spec_parts());
        }
        out
    }

    /// Computes the next generation of one partition, reading the
    /// current cells as the previous generation: the worker body of the
    /// partitioned update path.  It takes `&self` only, so workers that
    /// share the grid read-only can each produce their own partition's
    /// cells without touching anyone else's.
    pub fn update_partition(&self, start: usize, end: usize) -> (out: Vec<C>)
        requires
            self.wf(),
            start <= end,
            end as int <= self.spec_len(),
        ensures
            out@.len() == end - start,
            forall|k: int|
                0 <= k < out@.len() ==> #[trigger] out@[k] == self.spec_next(start as int + k),
    {
        let mut out: Vec<C> = Vec::new();
        let mut i = start;
        while i < end
            invariant
                self.wf(),
                start <= i <= end,
                end as int <= self.spec_len(),
                out@.len() == i - start,
                forall|k: int|
                    0 <= k < out@.len() ==> #[trigger] out@[k] == self.spec_next(start as int + k),
            decreases end - i,
        {
            proof {
                assert(self.spec_row_ok(i as int));
                assert(self.spec_table()[i as int] == self.neighbors@[i as int]@);
                lemma_row_entries_in_range(
                    self.neighbors@[i as int]@,
                    self.spec_nhood(),
                    self.spec_rows(),
                    self.spec_cols(),
                    i as int,
                );
            }
            let row = &self.neighbors[i];
            let new_cell = step_cell(&self.cells, row, &self.evolution_state, self.rows, self.cols, i);
            out.push(new_cell);
            i += 1;
        }
        out
    }

    /// Commits one generation computed partition-wise, for example by a
    /// pool of workers that each produced their own partition with
    /// [`Self::update_partition`]: writes partition `t`'s cells over the
    /// slots that partition covers, then advances the evolution state,
    /// exactly once, after all writes.  Each supplied cell must already
    /// sit at the coordinate of the slot it lands in, as the cells that
    /// `update_partition` hands back do.
    #[verifier::rlimit(50)]
    pub fn apply_update(&mut self, results: Vec<Vec<C>>)
        requires
            old(self).wf(),
            results@.len() == old(self).spec_parts().len(),
            forall|t: int|
                0 <= t < results@.len() ==> (#[trigger] results@[t])@.len()
                    == old(self).spec_parts()[t].1 - old(self).spec_parts()[t].0,
            forall|t: int, k: int|
                0 <= t < results@.len() && 0 <= k < results@[t]@.len() ==> (
                #[trigger] results@[t]@[k]).spec_coord() == (
                x_of(old(self).spec_parts()[t].0 + k, old(self).spec_cols()),
                y_of(old(self).spec_parts()[t].0 + k, old(self).spec_cols()),
                ),
        ensures
            final(self).wf(),
            final(self).spec_rows() == old(self).spec_rows(),
            final(self).spec_cols() == old(self).spec_cols(),
            final(self).spec_cells().len() == old(self).spec_cells().len(),
            final(self).spec_state() == old(self).spec_state().spec_update(),
            final(self).spec_table() == old(self).spec_table(),
            final(self).spec_parts() == old(self).spec_parts(),
            forall|t: int, k: int|
                0 <= t < results@.len() && 0 <= k < results@[t]@.len()
                    ==> final(self).spec_cells()[old(self).spec_parts()[t].0 + k] == (
                    #[trigger] results@[t]@[k]),
    {
        let ghost orig = *self;
        let parts_count = self.parts.len();
        let mut t: usize = 0;
        while t < parts_count
            invariant
                orig.wf_inner(),
                self.rows == orig.rows,
                self.cols == orig.cols,
                self.nhood == orig.nhood,
                self.neighbors == orig.neighbors,
                self.evolution_state == orig.evolution_state,
                self.parts == orig.parts,
                self.dimensions == orig.dimensions,
                self.old_cells == orig.old_cells,
                t <= parts_count,
                parts_count == self.parts@.len(),
                self.cells@.len() == orig.spec_len(),
                results@.len() == orig.spec_parts().len(),
                forall|q: int|
                    0 <= q < results@.len() ==> (#[trigger] results@[q])@.len()
                        == orig.spec_parts()[q].1 - orig.spec_parts()[q].0,
                forall|q: int, m: int|
                    0 <= q < results@.len() && 0 <= m < results@[q]@.len() ==> (
                    #[trigger] results@[q]@[m]).spec_coord() == (
                    x_of(orig.spec_parts()[q].0 + m, orig.spec_cols()),
                    y_of(orig.spec_parts()[q].0 + m, orig.spec_cols()),
                    ),
                forall|q: int, m: int|
                    0 <= q < t as int && 0 <= m < results@[q]@.len() ==> self.cells@[
                        orig.spec_parts()[q].0 + m
                    ] == (#[trigger] results@[q]@[m]),
                forall|i: int|
                    0 <= i < orig.spec_len() ==> (#[trigger] self.cells@[i]).spec_coord() == (
                    x_of(i, orig.spec_cols()),
                    y_of(i, orig.spec_cols()),
                    ),
            decreases parts_count - t,
        {
            let p = self.parts[t];
            let start = p.0;
            let end = p.1;
            let result = &results[t];
            proof {
                assert forall|q: int|
                    0 <= q < t as int implies (#[trigger] orig.spec_parts()[q]).1
                    <= start as int by {
                    lemma_parts_monotonic(orig.spec_parts(), orig.spec_len(), q, t as int);
                }
            }
            let mut k: usize = 0;
            while k < result.len()
                invariant
                    orig.wf_inner(),
                    self.rows == orig.rows,
                    self.cols == orig.cols,
                    self.nhood == orig.nhood,
                    self.neighbors == orig.neighbors,
                    self.evolution_state == orig.evolution_state,
                    self.parts == orig.parts,
                    self.dimensions == orig.dimensions,
                    self.old_cells == orig.old_cells,
                    self.cells@.len() == orig.spec_len(),
                    results@.len() == orig.spec_parts().len(),
                    (t as int) < self.parts@.len(),
                    p == self.parts@[t as int],
                    start == p.0,
                    end == p.1,
                    result == results@[t as int],
                    k <= result@.len(),
                    result@.len() == end - start,
                    forall|q: int|
                        0 <= q < t as int ==> (#[trigger] orig.spec_parts()[q]).1 <= start as int,
                    forall|q: int|
                        0 <= q < results@.len() ==> (#[trigger] results@[q])@.len()
                            == orig.spec_parts()[q].1 - orig.spec_parts()[q].0,
                    forall|q: int, m: int|
                        0 <= q < results@.len() && 0 <= m < results@[q]@.len() ==> (
                        #[trigger] results@[q]@[m]).spec_coord() == (
                        x_of(orig.spec_parts()[q].0 + m, orig.spec_cols()),
                        y_of(orig.spec_parts()[q].0 + m, orig.spec_cols()),
                        ),
                    forall|q: int, m: int|
                        0 <= q < t as int && 0 <= m < results@[q]@.len() ==> self.cells@[
                            orig.spec_parts()[q].0 + m
                        ] == (#[trigger] results@[q]@[m]),
                    forall|m: int|
                        0 <= m < k as int ==> #[trigger] self.cells@[start as int + m]
                            == results@[t as int]@[m],
                    forall|i: int|
                        0 <= i < orig.spec_len() ==> (#[trigger] self.cells@[i]).spec_coord() == (
                        x_of(i, orig.spec_cols()),
                        y_of(i, orig.spec_cols()),
                        ),
                decreases result@.len() - k as int,
            {
                let cell = result[k];
                proof {
                    assert(cell == results@[t as int]@[k as int]);
                }
                self.cells[start + k] = cell;
                k += 1;
            }
            t += 1;
        }

        self.evolution_state.update();

        proof {
            assert(self.spec_table() =~= orig.spec_table());
            assert forall|i: int| 0 <= i < self.spec_len() implies self.spec_row_ok(i) by {
                assert(orig.spec_row_ok(i));
                assert(self.spec_table()[i] == orig.spec_table()[i]);
            }
        }
    }

    /// Neighbor correctness: in a well-formed grid, table entry `j` of
    /// slot `i` is `Some` of the neighbor's own slot exactly where the
    /// strategy's `j`-th neighbor coordinate lies inside the extents,
    /// and `None` exactly where it falls outside; every table row has
    /// exactly the strategy's arity.
    pub proof fn lemma_neighbor_table(&self)
        requires
            self.wf(),
        ensures
            self.spec_table().len() == self.spec_len(),
            forall|i: int|
                0 <= i < self.spec_len() ==> (#[trigger] self.spec_table()[i]).len()
                    == self.spec_nhood().spec_count(),
            forall|i: int, j: int|
                0 <= i < self.spec_len() && 0 <= j < self.spec_nhood().spec_count()
                    ==> spec_entry_ok(
                    #[trigger] self.spec_table()[i][j],
                    self.spec_nhood().spec_neighbors(
                        x_of(i, self.spec_cols()),
                        y_of(i, self.spec_cols()),
                    )[j],
                    self.spec_rows(),
                    self.spec_cols(),
                ),
    {
        assert forall|i: int| 0 <= i < self.spec_len() implies (#[trigger] self.spec_table()[
            i
        ]).len() == self.spec_nhood().spec_count() by {
            assert(self.spec_row_ok(i));
        }
        assert forall|i: int, j: int|
            0 <= i < self.spec_len() && 0 <= j < self.spec_nhood().spec_count() implies spec_entry_ok(
            #[trigger] self.spec_table()[i][j],
            self.spec_nhood().spec_neighbors(x_of(i, self.spec_cols()), y_of(i, self.spec_cols()))[j],
            self.spec_rows(),
            self.spec_cols(),
        ) by {
            assert(self.spec_row_ok(i));
        }
    }

    /// Identity: every cell of a well-formed grid sits at the coordinate
    /// its slot linearizes to.  Together with the update contract this
    /// says that cells never move.
    pub proof fn lemma_cells_at_their_slots(&self, i: int)
        requires
            self.wf(),
            0 <= i < self.spec_len(),
        ensures
            self.spec_cells()[i].spec_coord() == (
                x_of(i, self.spec_cols()),
                y_of(i, self.spec_cols()),
            ),
    {
    }

    /// A well-formed grid's buffers and table all hold one entry per
    /// slot, and the extents are positive and small enough for every
    /// slot to fit an `i32` coordinate.
    pub proof fn lemma_wf_shape(&self)
        requires
            self.wf(),
        ensures
            1 <= self.spec_rows(),
            1 <= self.spec_cols(),
            self.spec_len() <= i32::MAX as int,
            self.spec_cells().len() == self.spec_len(),
            self.spec_table().len() == self.spec_len(),
    {
    }

    /// The partitioned update's safety contract: the fixed partitions
    /// are non-empty, contiguous, pairwise disjoint, and together cover
    /// the whole flat index range exactly once.
    pub proof fn lemma_partition_layout(&self)
        requires
            self.wf(),
        ensures
            spec_parts_ok(self.spec_parts(), self.spec_len()),
    {
    }
}

/// Neighbor correctness on a Moore grid, the concrete corner: an
/// interior cell, one not on any edge of the lattice, has all eight
/// neighbors, so no entry of its table row is absent.
pub proof fn lemma_moore_interior_full<C: Cell>(
    g: &TwodimGrid<C, crate::grid::nhood::MooreNhood<GridCoord>>,
    i: int,
)
    requires
        g.wf(),
        0 <= i < g.spec_len(),
        0 < x_of(i, g.spec_cols()) < g.spec_cols() - 1,
        0 < y_of(i, g.spec_cols()) < g.spec_rows() - 1,
    ensures
        forall|j: int| 0 <= j < g.spec_table()[i].len() ==> (#[trigger] g.spec_table()[i][j]) is Some,
{
    assert(g.spec_row_ok(i));
    let nbs = g.spec_nhood().spec_neighbors(x_of(i, g.spec_cols()), y_of(i, g.spec_cols()));
    assert forall|j: int|
        0 <= j < g.spec_table()[i].len() implies (#[trigger] g.spec_table()[i][j]) is Some by {
        assert(spec_entry_ok(g.spec_table()[i][j], nbs[j], g.spec_rows(), g.spec_cols()));
        assert(0 <= nbs[j].0 < g.spec_cols() && 0 <= nbs[j].1 < g.spec_rows());
    }
}

/// The neighbor table is determined by the strategy and the extents
/// alone: two well-formed grids that agree on those carry the same
/// table, however they were built.
pub proof fn lemma_same_topology_same_table<C: Cell, N: Nhood<Coord = GridCoord>>(
    a: &TwodimGrid<C, N>,
    b: &TwodimGrid<C, N>,
)
    requires
        a.wf(),
        b.wf(),
        a.spec_nhood() == b.spec_nhood(),
        a.spec_rows() == b.spec_rows(),
        a.spec_cols() == b.spec_cols(),
    ensures
        a.spec_table() == b.spec_table(),
{
    a.lemma_neighbor_table();
    b.lemma_neighbor_table();
    assert forall|i: int| 0 <= i < a.spec_len() implies #[trigger] a.spec_table()[i]
        == b.spec_table()[i] by {
        assert(a.spec_row_ok(i));
        assert(b.spec_row_ok(i));
        let nbs = a.spec_nhood().spec_neighbors(x_of(i, a.spec_cols()), y_of(i, a.spec_cols()));
        assert forall|j: int|
            0 <= j < a.spec_table()[i].len() implies #[trigger] a.spec_table()[i][j]
            == b.spec_table()[i][j] by {
            assert(spec_entry_ok(a.spec_table()[i][j], nbs[j], a.spec_rows(), a.spec_cols()));
            assert(spec_entry_ok(b.spec_table()[i][j], nbs[j], a.spec_rows(), a.spec_cols()));
        }
        assert(a.spec_table()[i] =~= b.spec_table()[i]);
    }
    assert(a.spec_table() =~= b.spec_table());
}

/// Order independence: what one generation produces is determined by
/// the previous cells, the neighbor table, the evolution state and the
/// extents alone.  Two grids that agree on those produce the same next
/// generation, whatever their partition layouts or worker counts.
pub proof fn lemma_order_independent<C: Cell, N: Nhood<Coord = GridCoord>>(
    a: &TwodimGrid<C, N>,
    b: &TwodimGrid<C, N>,
    i: int,
)
    requires
        a.spec_cells() == b.spec_cells(),
        a.spec_table() == b.spec_table(),
        a.spec_state() == b.spec_state(),
        a.spec_cols() == b.spec_cols(),
    ensures
        a.spec_next(i) == b.spec_next(i),
{
}

} // verus!
