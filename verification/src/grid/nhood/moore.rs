//! The 8-connected Moore neighborhood.

use core::marker::PhantomData;

use vstd::prelude::*;

use crate::traits::Coord;
use crate::traits::Nhood;

verus! {

/// Moore neighborhood: the eight coordinates surrounding a cell, in
/// row-major order around the center.  The order is part of the
/// contract, since consumers may rely on positional meaning.
pub struct MooreNhood<C: Coord> {
    phantom: PhantomData<C>,
}

impl<C: Coord> MooreNhood<C> {
    /// Constructs the strategy.
    pub fn new() -> Self {
        MooreNhood { phantom: PhantomData }
    }
}

impl<C: Coord> Nhood for MooreNhood<C> {
    type Coord = C;

    open spec fn spec_count(&self) -> nat {
        8
    }

    // 0 | 1 | 2
    // 3 | x | 4
    // 5 | 6 | 7
    open spec fn spec_neighbors(&self, x: int, y: int) -> Seq<(int, int)> {
        seq![
            (x - 1, y - 1),
            (x, y - 1),
            (x + 1, y - 1),
            (x - 1, y),
            (x + 1, y),
            (x - 1, y + 1),
            (x, y + 1),
            (x + 1, y + 1),
        ]
    }

    proof fn lemma_neighbors_count(&self, x: int, y: int) {
    }

    fn neighbors(&self, coord: &C) -> (r: Vec<C>) {
        let x = coord.x();
        let y = coord.y();

        let mut neighbors_coords: Vec<C> = Vec::new();
        neighbors_coords.push(C::from_2d(x - 1, y - 1));
        neighbors_coords.push(C::from_2d(x, y - 1));
        neighbors_coords.push(C::from_2d(x + 1, y - 1));
        neighbors_coords.push(C::from_2d(x - 1, y));
        // x
        neighbors_coords.push(C::from_2d(x + 1, y));
        neighbors_coords.push(C::from_2d(x - 1, y + 1));
        neighbors_coords.push(C::from_2d(x, y + 1));
        neighbors_coords.push(C::from_2d(x + 1, y + 1));

        neighbors_coords
    }

    fn neighbors_count(&self) -> (r: usize) {
        8
    }
}

} // verus!
