//! Conway's Game of Life, as a cell rule for the grid engine.

use vstd::prelude::*;

use crate::grid::EmptyState;
use crate::traits::Cell;
use crate::traits::Coord;

verus! {

/// Whether a Life cell is dead or alive.
#[derive(Clone, Copy, Debug, PartialEq, Eq, Structural)]
pub enum LifeState {
    /// No live cell in the slot.
    Dead,
    /// A live cell in the slot.
    Alive,
}

/// One Game-of-Life cell: a dead-or-alive state at a coordinate.
#[derive(Clone, Copy, Debug)]
pub struct Life {
    /// Dead or alive.
    pub state: LifeState,
    /// The cell's coordinate.
    pub coord: (i32, i32),
}

impl PartialEq for Life {
    fn eq(&self, other: &Life) -> (r: bool) {
        self.state == other.state && self.coord.0 == other.coord.0 && self.coord.1
            == other.coord.1
    }
}

impl vstd::std_specs::cmp::PartialEqSpecImpl for Life {
    open spec fn obeys_eq_spec() -> bool {
        true
    }

    open spec fn eq_spec(&self, other: &Life) -> bool {
        self.state == other.state && self.coord == other.coord
    }
}

impl Life {
    /// How many of the given neighbors are present and alive.
    pub open spec fn spec_alive_count(neighbors: Seq<Option<Life>>) -> int
        decreases neighbors.len(),
    {
        if neighbors.len() == 0 {
            0
        } else {
            (if neighbors[0] matches Some(c) && c.state is Alive {
                1int
            } else {
                0int
            }) + Self::spec_alive_count(neighbors.skip(1))
        }
    }

    /// What a dead cell becomes: alive exactly on three alive neighbors.
    pub open spec fn spec_dead_state(alive: int) -> LifeState {
        if alive == 3 {
            LifeState::Alive
        } else {
            LifeState::Dead
        }
    }

    /// What an alive cell becomes: alive exactly on two or three alive
    /// neighbors.
    pub open spec fn spec_alive_state(alive: int) -> LifeState {
        if alive == 2 || alive == 3 {
            LifeState::Alive
        } else {
            LifeState::Dead
        }
    }

    /// Counts the alive neighbors in a neighbor view.
    pub fn alive_count(&self, neighbors: &Vec<Option<Life>>) -> (r: usize)
        ensures
            r == Self::spec_alive_count(neighbors@),
    {
        proof {
            assert(neighbors@.skip(0) =~= neighbors@);
        }
        let mut count: usize = 0;
        let mut j: usize = 0;
        while j < neighbors.len()
            invariant
                j <= neighbors@.len(),
                count <= j,
                Self::spec_alive_count(neighbors@) == count + Self::spec_alive_count(
                    neighbors@.skip(j as int),
                ),
            decreases neighbors@.len() - j as int,
        {
            proof {
                assert(neighbors@.skip(j as int).skip(1) =~= neighbors@.skip(j as int + 1));
                assert(neighbors@.skip(j as int)[0] == neighbors@[j as int]);
            }
            let neighbor = neighbors[j];
            match neighbor {
                Some(cell) => {
                    match cell.state {
                        LifeState::Alive => {
                            count += 1;
                        },
                        LifeState::Dead => {},
                    }
                },
                None => {},
            }
            j += 1;
        }
        proof {
            assert(neighbors@.skip(neighbors@.len() as int) =~= Seq::<Option<Life>>::empty());
        }
        count
    }

    /// Next state for a dead cell with the given alive-neighbor count.
    pub fn dead_state(&self, alive: usize) -> (r: LifeState)
        ensures
            r == Self::spec_dead_state(alive as int),
    {
        match alive {
            3 => LifeState::Alive,
            _ => LifeState::Dead,
        }
    }

    /// Next state for an alive cell with the given alive-neighbor count.
    pub fn alive_state(&self, alive: usize) -> (r: LifeState)
        ensures
            r == Self::spec_alive_state(alive as int),
    {
        match alive {
            2 | 3 => LifeState::Alive,
            _ => LifeState::Dead,
        }
    }
}

impl Cell for Life {
    type Coord = (i32, i32);

    type State = EmptyState;

    open spec fn spec_coord(&self) -> (int, int) {
        (self.coord.0 as int, self.coord.1 as int)
    }

    open spec fn spec_with_coord(x: int, y: int) -> Life {
        Life { state: LifeState::Dead, coord: (x as i32, y as i32) }
    }

    open spec fn spec_set_coord(self, x: int, y: int) -> Life {
        Life { state: self.state, coord: (x as i32, y as i32) }
    }

    open spec fn spec_update(self, neighbors: Seq<Option<Life>>, state: EmptyState) -> Life {
        let alive = Self::spec_alive_count(neighbors);
        Life {
            state: match self.state {
                LifeState::Alive => Self::spec_alive_state(alive),
                LifeState::Dead => Self::spec_dead_state(alive),
            },
            coord: self.coord,
        }
    }

    proof fn lemma_with_coord_pins_coord(x: int, y: int) {
    }

    proof fn lemma_set_coord_pins_coord(self, x: int, y: int) {
    }

    fn update(&mut self, old_cell: &Self, neighbors: &Vec<Option<Life>>, state: &EmptyState) {
        let alive_count = old_cell.alive_count(neighbors);

        let new_state = match old_cell.state {
            LifeState::Alive => old_cell.alive_state(alive_count),
            LifeState::Dead => old_cell.dead_state(alive_count),
        };

        self.state = new_state;
        self.coord = old_cell.coord;
    }

    fn with_coord<C: Coord>(coord: C) -> Self {
        Life { state: LifeState::Dead, coord: (coord.x(), coord.y()) }
    }

    fn coord(&self) -> (r: &(i32, i32)) {
        &self.coord
    }

    fn set_coord<C: Coord>(&mut self, coord: &C) {
        self.coord = (coord.x(), coord.y());
    }
}

} // verus!
