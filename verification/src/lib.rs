//! A verified game-state engine for a terminal snake game.
//!
//! The snake steers around a fixed grid; each tick advances the head one
//! clamped step in the commanded direction, records the trail, and rebuilds
//! an occupancy grid with a freshly placed food cell.

pub mod board;
pub mod engine;
pub mod input;
pub mod snake;

pub use board::Board;
pub use engine::Game;
pub use input::GameInput;
pub use snake::Coordinate;
pub use snake::Snake;
