//! Grids and the pieces they are built from.

use vstd::prelude::*;

use crate::traits::EvolutionState;

pub mod nhood;
pub mod twodim;

verus! {

/// Dummy evolution state to be used with cellular automata where this
/// concept is not applicable.
#[derive(Clone, Copy, Debug)]
pub struct EmptyState;

impl EvolutionState for EmptyState {
    open spec fn spec_update(self) -> Self {
        self
    }

    fn update(&mut self) {
    }
}

/// Evolution state that counts the generations it has seen: it is
/// advanced exactly once per grid update, so after `n` updates it has
/// seen `n` ticks.  Wraps around at the type's end.
#[derive(Clone, Copy, Debug)]
pub struct TickState {
    /// How many advances have happened.
    pub ticks: u64,
}

impl EvolutionState for TickState {
    open spec fn spec_update(self) -> Self {
        TickState {
            ticks: if self.ticks == u64::MAX {
                0
            } else {
                (self.ticks + 1) as u64
            },
        }
    }

    fn update(&mut self) {
        if self.ticks == u64::MAX {
            self.ticks = 0;
        } else {
            self.ticks = self.ticks + 1;
        }
    }
}

} // verus!
