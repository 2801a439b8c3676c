//! Core of a grid-based snake simulation: a snake moves over a bounded grid
//! one tick at a time, steered by buffered direction requests, eating food,
//! growing, and colliding with walls or itself.

pub mod direction;
pub mod food;
pub mod grid;
pub mod sim;

pub use direction::Direction;
pub use grid::Cell;
pub use grid::Grid;
pub use sim::MoveOutcome;
pub use sim::RoundState;
pub use sim::Simulation;
pub use sim::Snapshot;
