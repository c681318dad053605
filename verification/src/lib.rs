//! Conway's Game of Life on a toroidal grid, with verified contracts.
//!
//! The engine keeps a set of live cells on a `width` x `height` lattice and
//! advances it one generation at a time under the classic B3/S23 rule: a live
//! cell survives with two or three live neighbors, a dead cell is born with
//! exactly three. Opposite edges of the grid are adjacent (toroidal wrap).
//! Each step records the cells that changed state in two interleaved
//! row/column delta buffers, so a host can redraw incrementally.

pub mod laws;
pub mod rules;
pub mod universe;

pub use rules::Cell;
pub use universe::Universe;
