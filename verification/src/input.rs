//! The per-tick command an input source supplies to the engine.

use vstd::prelude::*;

verus! {

/// The latest command read from the player: one of the four movement
/// directions, or a request to quit the game loop.
#[derive(Debug, Clone, Copy, PartialEq, Eq, Structural)]
pub enum GameInput {
    Up,
    Down,
    Left,
    Right,
    Exit,
}

} // verus!
