//! A sliding-tile puzzle engine: a 4x4 grid of tiles numbered 1 through 15
//! plus one blank cell, mutated by sliding a tile into the blank. The grid is
//! modelled as a flat sequence of 16 cells; every operation is specified over
//! that model, and the shuffle is proved to keep the grid solvable.

pub mod console;
pub mod engine;
pub mod laws;
pub mod model;
mod rng;

pub use console::Command;
pub use console::TurnOutcome;
pub use engine::Puzzle;
pub use model::MoveDirection;
