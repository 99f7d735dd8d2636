//! A diagnostic cell that records the shape of its neighbor view: how
//! many neighbors were present and how many slots were absent.  Handy
//! for checking a grid's wiring from the outside.

use vstd::prelude::*;

use crate::grid::TickState;
use crate::traits::Cell;
use crate::traits::Coord;

verus! {

/// How many entries of a neighbor view hold a neighbor.
pub open spec fn spec_present_count(ns: Seq<Option<TallyCell>>) -> int
    decreases ns.len(),
{
    if ns.len() == 0 {
        0
    } else {
        (if ns[0] is Some {
            1int
        } else {
            0int
        }) + spec_present_count(ns.skip(1))
    }
}

/// A cell that records, at every update, how many neighbors its view
/// presented and how many slots marked an absent neighbor.
#[derive(Clone, Copy, Debug)]
pub struct TallyCell {
    /// The cell's coordinate.
    pub coord: (i32, i32),
    /// Neighbors present at the last update.
    pub present: usize,
    /// Neighbors absent at the last update.
    pub absent: usize,
}

impl Cell for TallyCell {
    type Coord = (i32, i32);

    type State = TickState;

    open spec fn spec_coord(&self) -> (int, int) {
        (self.coord.0 as int, self.coord.1 as int)
    }

    open spec fn spec_with_coord(x: int, y: int) -> TallyCell {
        TallyCell { coord: (x as i32, y as i32), present: 0, absent: 0 }
    }

    open spec fn spec_set_coord(self, x: int, y: int) -> TallyCell {
        TallyCell { coord: (x as i32, y as i32), ..self }
    }

    open spec fn spec_update(self, neighbors: Seq<Option<TallyCell>>, state: TickState) -> TallyCell {
        TallyCell {
            coord: self.coord,
            present: spec_present_count(neighbors) as usize,
            absent: (neighbors.len() - spec_present_count(neighbors)) as usize,
        }
    }

    proof fn lemma_with_coord_pins_coord(x: int, y: int) {
    }

    proof fn lemma_set_coord_pins_coord(self, x: int, y: int) {
    }

    fn update(&mut self, old_cell: &Self, neighbors: &Vec<Option<TallyCell>>, state: &TickState) {
        proof {
            assert(neighbors@.skip(0) =~= neighbors@);
        }
        let mut present: usize = 0;
        let mut j: usize = 0;
        while j < neighbors.len()
            invariant
                j <= neighbors@.len(),
                present <= j,
                spec_present_count(neighbors@) == present + spec_present_count(
                    neighbors@.skip(j as int),
                ),
            decreases neighbors@.len() - j as int,
        {
            proof {
                assert(neighbors@.skip(j as int).skip(1) =~= neighbors@.skip(j as int + 1));
                assert(neighbors@.skip(j as int)[0] == neighbors@[j as int]);
            }
            let neighbor = neighbors[j];
            match neighbor {
                Some(_) => {
                    present += 1;
                },
                None => {},
            }
            j += 1;
        }
        proof {
            assert(neighbors@.skip(neighbors@.len() as int) =~= Seq::<Option<TallyCell>>::empty());
        }
        let absent = neighbors.len() - present;
        self.coord = old_cell.coord;
        self.present = present;
        self.absent = absent;
    }

    fn with_coord<C: Coord>(coord: C) -> Self {
        TallyCell { coord: (coord.x(), coord.y()), present: 0, absent: 0 }
    }

    fn coord(&self) -> (r: &(i32, i32)) {
        &self.coord
    }

    fn set_coord<C: Coord>(&mut self, coord: &C) {
        self.coord = (coord.x(), coord.y());
    }
}

} // verus!
