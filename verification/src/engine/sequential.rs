//! Most simple engine that runs the evolution sequentially.  Useful for
//! test purposes and with grids that parallelize internally.

use vstd::prelude::*;

use crate::traits::Cell;
use crate::traits::Consumer;
use crate::traits::Engine;
use crate::traits::Grid;

verus! {

/// Engine generic over Cell and Consumer, running the evolution
/// sequentially: each run advances the grid one generation and hands it
/// to the consumer, over and over.
#[verifier::reject_recursive_types(C)]
pub struct Sequential<C: Cell, G: Grid<Cell = C>, Con: Consumer<Cell = C>> {
    grid: G,
    consumer: Con,
}

impl<C: Cell, G: Grid<Cell = C>, Con: Consumer<Cell = C>> Sequential<C, G, Con> {
    /// Constructs an engine with the given grid and consumer.
    pub fn new(grid: G, consumer: Con) -> (r: Self)
        ensures
            r.spec_grid() == grid,
            r.spec_consumer() == consumer,
    {
        Sequential { grid, consumer }
    }

    /// The grid the engine drives.
    pub closed spec fn spec_grid(&self) -> G {
        self.grid
    }

    /// The consumer every finished generation is handed to.
    pub closed spec fn spec_consumer(&self) -> Con {
        self.consumer
    }
}

impl<C: Cell, G: Grid<Cell = C>, Con: Consumer<Cell = C>> Engine for Sequential<C, G, Con> {
    open spec fn wf(&self) -> bool {
        self.spec_grid().wf()
    }

    fn run_times(&mut self, times: u64) {
        let mut i: u64 = 0;
        while i < times
            invariant
                i <= times,
                self.grid.wf(),
            decreases times - i,
        {
            self.grid.update();
            self.consumer.consume(&mut self.grid);
            i += 1;
        }
    }
}

} // verus!
