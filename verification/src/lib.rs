//! Library for building cellular automata.
//!
//! A cellular automaton is assembled from a cell rule, a grid and an
//! engine.  The grid stores all cells in a flat buffer together with a
//! precomputed neighbor-index table, and advances them one generation at
//! a time; the engine runs the grid evolution and hands every finished
//! generation to a consumer.  Consumers are the interface to the outer
//! world.

pub mod engine;
pub mod grid;
pub mod hpp;
pub mod life;
pub mod repr;
pub mod tally;
pub mod traits;
