//! The 4-connected Von Neumann neighborhood.

use core::marker::PhantomData;

use vstd::prelude::*;

use crate::traits::Coord;
use crate::traits::Nhood;

verus! {

/// Von Neumann neighborhood: the four edge-adjacent coordinates of a
/// cell, in the order north, west, east, south.  The order is part of
/// the contract, since consumers may rely on positional meaning.
pub struct VonNeumannNhood<C: Coord> {
    phantom: PhantomData<C>,
}

impl<C: Coord> VonNeumannNhood<C> {
    /// Constructs the strategy.
    pub fn new() -> Self {
        VonNeumannNhood { phantom: PhantomData }
    }
}

impl<C: Coord> Nhood for VonNeumannNhood<C> {
    type Coord = C;

    open spec fn spec_count(&self) -> nat {
        4
    }

    // - | 0 | -
    // 1 | x | 2
    // - | 3 | -
    open spec fn spec_neighbors(&self, x: int, y: int) -> Seq<(int, int)> {
        seq![(x, y - 1), (x - 1, y), (x + 1, y), (x, y + 1)]
    }

    proof fn lemma_neighbors_count(&self, x: int, y: int) {
    }

    fn neighbors(&self, coord: &C) -> (r: Vec<C>) {
        let x = coord.x();
        let y = coord.y();

        let mut neighbors_coords: Vec<C> = Vec::new();
        neighbors_coords.push(C::from_2d(x, y - 1));
        neighbors_coords.push(C::from_2d(x - 1, y));
        // x
        neighbors_coords.push(C::from_2d(x + 1, y));
        neighbors_coords.push(C::from_2d(x, y + 1));

        neighbors_coords
    }

    fn neighbors_count(&self) -> (r: usize) {
        4
    }
}

} // verus!
