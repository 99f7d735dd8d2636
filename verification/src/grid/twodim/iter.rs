//! Neighbor view over the previous generation: walks one cell's
//! precomputed neighbor slots and hands out the neighbor cells, or
//! `None` where a neighbor falls outside the grid.

use vstd::prelude::*;

use crate::traits::Cell;

verus! {

/// One element of a neighbor view: the cell at the given slot of the
/// previous generation, or `None` at the grid edge.
pub open spec fn spec_view_elem<C: Cell>(cells: Seq<C>, slot: Option<usize>) -> Option<C> {
    match slot {
        Some(k) => Some(cells[k as int]),
        None => None,
    }
}

/// The whole neighbor view of one cell: its neighbor slots mapped over
/// the previous generation.
pub open spec fn spec_view_row<C: Cell>(cells: Seq<C>, row: Seq<Option<usize>>) -> Seq<Option<C>> {
    Seq::new(row.len(), |j: int| spec_view_elem(cells, row[j]))
}

/// Walks one cell's neighbor slots over the previous-generation buffer.
pub struct Iter<'a, C: Cell> {
    cells: &'a Vec<C>,
    neighbors: &'a Vec<Option<usize>>,
    index: usize,
    count: usize,
}

impl<'a, C: Cell> Iter<'a, C> {
    /// The iterator stays inside its buffers.
    pub closed spec fn wf(&self) -> bool {
        &&& self.count <= self.neighbors@.len()
        &&& self.index <= self.count
        &&& forall|j: int|
            0 <= j < self.count ==> ((#[trigger] self.neighbors@[j]) matches Some(k)
                ==> (k as int) < self.cells@.len())
    }

    /// The previous-generation buffer walked over.
    pub closed spec fn spec_cells(&self) -> Seq<C> {
        self.cells@
    }

    /// The neighbor slots walked over.
    pub closed spec fn spec_neighbors(&self) -> Seq<Option<usize>> {
        self.neighbors@
    }

    /// How many slots have been handed out.
    pub closed spec fn spec_index(&self) -> int {
        self.index as int
    }

    /// How many slots will be handed out in all.
    pub closed spec fn spec_count(&self) -> int {
        self.count as int
    }

    /// Builds a view over the first `count` neighbor slots.
    pub fn new(cells: &'a Vec<C>, neighbors: &'a Vec<Option<usize>>, count: usize) -> (r: Self)
        requires
            count <= neighbors@.len(),
            forall|j: int|
                0 <= j < count ==> ((#[trigger] neighbors@[j]) matches Some(k) ==> (k as int)
                    < cells@.len()),
        ensures
            r.wf(),
            r.spec_cells() == cells@,
            r.spec_neighbors() == neighbors@,
            r.spec_count() == count as int,
            r.spec_index() == 0,
    {
        Iter { cells, neighbors, count, index: 0 }
    }

    /// Hands out the next view element, or `None` once all `count`
    /// slots have been walked.
    pub fn next(&mut self) -> (r: Option<Option<C>>)
        requires
            old(self).wf(),
        ensures
            final(self).wf(),
            final(self).spec_cells() == old(self).spec_cells(),
            final(self).spec_neighbors() == old(self).spec_neighbors(),
            final(self).spec_count() == old(self).spec_count(),
            old(self).spec_index() < old(self).spec_count() ==> {
                &&& final(self).spec_index() == old(self).spec_index() + 1
                &&& r == Some(
                    spec_view_elem(
                        old(self).spec_cells(),
                        old(self).spec_neighbors()[old(self).spec_index()],
                    ),
                )
            },
            old(self).spec_index() >= old(self).spec_count() ==> {
                &&& final(self).spec_index() == old(self).spec_index()
                &&& r is None
            },
    {
        if self.index < self.count {
            let maybe_index = self.neighbors[self.index];
            self.index += 1;
            match maybe_index {
                Some(index) => Some(Some(self.cells[index])),
                None => Some(None),
            }
        } else {
            None
        }
    }
}

/// Collects the neighbor view of one cell into a vector: element `j` is
/// the previous-generation cell at neighbor slot `j`, or `None` where
/// that slot marks a missing neighbor.
pub fn collect_view<C: Cell>(cells: &Vec<C>, neighbors: &Vec<Option<usize>>, count: usize) -> (r:
    Vec<Option<C>>)
    requires
        count <= neighbors@.len(),
        forall|j: int|
            0 <= j < count ==> ((#[trigger] neighbors@[j]) matches Some(k) ==> (k as int)
                < cells@.len()),
    ensures
        r@ == spec_view_row(cells@, neighbors@.take(count as int)),
{
    let mut it = Iter::new(cells, neighbors, count);
    let mut view: Vec<Option<C>> = Vec::new();
    loop
        invariant
            it.wf(),
            it.spec_cells() == cells@,
            it.spec_neighbors() == neighbors@,
            it.spec_count() == count as int,
            view@.len() == it.spec_index(),
            forall|j: int|
                0 <= j < view@.len() ==> #[trigger] view@[j] == spec_view_elem(
                    cells@,
                    neighbors@[j],
                ),
        ensures
            view@.len() == count as int,
            forall|j: int|
                0 <= j < view@.len() ==> #[trigger] view@[j] == spec_view_elem(
                    cells@,
                    neighbors@[j],
                ),
        decreases count as int - it.spec_index(),
    {
        match it.next() {
            Some(elem) => view.push(elem),
            None => break ,
        }
    }
    proof {
        assert(view@ =~= spec_view_row(cells@, neighbors@.take(count as int)));
    }
    view
}

} // verus!
