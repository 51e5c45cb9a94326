//! The engine: one snake and one board, advanced together once per tick.

use vstd::prelude::*;

use crate::board::Board;
use crate::board::rebuilt_from;
use crate::input::GameInput;
use crate::snake::Coordinate;
use crate::snake::Snake;
use crate::snake::advanced;

verus! {

/// One game: the snake, the board derived from it, and the grid
/// dimensions both of them share.
pub struct Game {
    pub snake: Snake,
    pub map: Board,
    pub width: usize,
    pub height: usize,
}

impl Game {
    /// A fresh game on a `width` x `height` grid: the snake at its starting
    /// position and an entirely empty board with no food yet.
    pub fn new(width: usize, height: usize) -> (g: Game)
        ensures
            g.width == width,
            g.height == height,
            g.snake.pos == (Coordinate { x: 1, y: 1 }),
            g.snake.pos_history@ == Seq::<Coordinate>::empty(),
            g.snake.size == 3,
            g.map.map_width == width,
            g.map.map_height == height,
            g.map.wf(),
            forall|x: int, y: int| #![trigger g.map.cell(x, y)] 0 <= x < width && 0 <= y < height
                ==> g.map.cell(x, y) == 0,
            g.map.food_pos is None,
    {
        Game { snake: Snake::new(), map: Board::new(width, height), width, height }
    }

    /// One tick: advance the snake one clamped step in the commanded
    /// direction, then rebuild the board from the new snake state. The
    /// caller is expected to stop ticking on `Exit` before calling this;
    /// the engine itself gives `Exit` no special treatment.
    pub fn update(&mut self, input: GameInput)
        ensures
            final(self).width == old(self).width,
            final(self).height == old(self).height,
            advanced(old(self).snake, final(self).snake, old(self).width, old(self).height, input),
            final(self).map.map_width == old(self).map.map_width,
            final(self).map.map_height == old(self).map.map_height,
            rebuilt_from(final(self).map, final(self).snake),
    {
        self.snake.update(self.width, self.height, input);
        self.map.update(&self.snake);
    }
}

} // verus!
