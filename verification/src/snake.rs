//! The snake: a steered head plus a bounded trail of its previous positions.

use vstd::prelude::*;

use crate::input::GameInput;

verus! {

/// A position on the grid. Movement clamps each axis to `0 ..= bound`,
/// where the bound is the grid dimension itself, so a coordinate may sit
/// one cell past the last rendered column or row; the board clips such
/// positions when it rebuilds.
#[derive(Debug, Clone, Copy, PartialEq, Eq, Structural)]
pub struct Coordinate {
    pub x: usize,
    pub y: usize,
}

/// The snake's state: current head position, its previous positions
/// (most recent first), and the fixed overall length bound.
pub struct Snake {
    pub pos: Coordinate,
    pub pos_history: Vec<Coordinate>,
    pub size: usize,
}

/// Where a head at `p` ends up after one step in direction `dir` on a
/// `width` x `height` grid: the axis moves by one unless that would leave
/// `0 ..= bound`, in which case the position is unchanged. `Exit` never moves.
pub open spec fn moved(p: Coordinate, width: usize, height: usize, dir: GameInput) -> Coordinate {
    match dir {
        GameInput::Up => if p.y > 0 {
            (Coordinate { x: p.x, y: (p.y - 1) as usize })
        } else {
            p
        },
        GameInput::Down => if p.y < height {
            (Coordinate { x: p.x, y: (p.y + 1) as usize })
        } else {
            p
        },
        GameInput::Left => if p.x > 0 {
            (Coordinate { x: (p.x - 1) as usize, y: p.y })
        } else {
            p
        },
        GameInput::Right => if p.x < width {
            (Coordinate { x: (p.x + 1) as usize, y: p.y })
        } else {
            p
        },
        GameInput::Exit => p,
    }
}

/// How many history entries a snake of the given length bound keeps:
/// strictly fewer than `size`, so the head plus its trail never exceed it.
pub open spec fn history_cap(size: usize) -> nat {
    if size > 0 {
        (size - 1) as nat
    } else {
        0
    }
}

/// The trail after one step: the pre-move head is prepended and the
/// result truncated to the cap, dropping the oldest entries.
pub open spec fn history_after(s: Snake) -> Seq<Coordinate> {
    let full = seq![s.pos] + s.pos_history@;
    if full.len() <= history_cap(s.size) {
        full
    } else {
        full.take(history_cap(s.size) as int)
    }
}

/// The whole one-step transition of a snake: `post` is `pre` advanced
/// once in direction `dir` on a `width` x `height` grid.
pub open spec fn advanced(pre: Snake, post: Snake, width: usize, height: usize, dir: GameInput) -> bool {
    &&& post.pos == moved(pre.pos, width, height, dir)
    &&& post.pos_history@ == history_after(pre)
    &&& post.size == pre.size
}

impl Snake {
    /// A fresh snake: head at (1, 1), no trail yet, length bound 3.
    pub fn new() -> (s: Snake)
        ensures
            s.pos == (Coordinate { x: 1, y: 1 }),
            s.pos_history@ == Seq::<Coordinate>::empty(),
            s.size == 3,
    {
        Snake { pos: Coordinate { x: 1, y: 1 }, pos_history: Vec::new(), size: 3 }
    }

    /// One tick: record the current head at the front of the trail,
    /// drop the oldest entries beyond the cap, then move the head one
    /// clamped step in the commanded direction.
    pub fn update(&mut self, width: usize, height: usize, direction: GameInput)
        ensures
            advanced(*old(self), *final(self), width, height, direction),
            final(self).pos_history@.len() <= history_cap(final(self).size),
    {
        self.pos_history.insert(0, self.pos);
        let cap: usize = if self.size > 0 {
            self.size - 1
        } else {
            0
        };
        if self.pos_history.len() > cap {
            self.pos_history.truncate(cap);
        }
        proof {
            assert(self.pos_history@ =~= history_after(*old(self)));
        }

        match direction {
            GameInput::Up => {
                if self.pos.y > 0 {
                    self.pos.y = self.pos.y - 1;
                }
            },
            GameInput::Down => {
                if self.pos.y < height {
                    self.pos.y = self.pos.y + 1;
                }
            },
            GameInput::Left => {
                if self.pos.x > 0 {
                    self.pos.x = self.pos.x - 1;
                }
            },
            GameInput::Right => {
                if self.pos.x < width {
                    self.pos.x = self.pos.x + 1;
                }
            },
            GameInput::Exit => {},
        }
    }
}

/// A movement command strictly inside the grid changes exactly one axis,
/// by exactly one, and leaves the other axis unchanged.
pub proof fn lemma_advance_interior(p: Coordinate, width: usize, height: usize, dir: GameInput)
    requires
        0 < p.x < width,
        0 < p.y < height,
        dir != GameInput::Exit,
    ensures
        moved(p, width, height, dir) != p,
        moved(p, width, height, dir).x == p.x || moved(p, width, height, dir).y == p.y,
        moved(p, width, height, dir).x == p.x ==> (moved(p, width, height, dir).y == p.y + 1
            || moved(p, width, height, dir).y + 1 == p.y),
        moved(p, width, height, dir).y == p.y ==> (moved(p, width, height, dir).x == p.x + 1
            || moved(p, width, height, dir).x + 1 == p.x),
{
}

/// At the near boundary (`x == 0` for Left, `y == 0` for Up) the clamp
/// triggers: the step leaves the position unchanged, with no underflow.
pub proof fn lemma_advance_near_boundary(p: Coordinate, width: usize, height: usize)
    ensures
        p.x == 0 ==> moved(p, width, height, GameInput::Left) == p,
        p.y == 0 ==> moved(p, width, height, GameInput::Up) == p,
{
}

/// At the far boundary (`x == width` for Right, `y == height` for Down)
/// the clamp triggers: the step leaves the position unchanged.
pub proof fn lemma_advance_far_boundary(p: Coordinate, width: usize, height: usize)
    ensures
        p.x == width ==> moved(p, width, height, GameInput::Right) == p,
        p.y == height ==> moved(p, width, height, GameInput::Down) == p,
{
}

/// The trail stays strictly shorter than the length bound: a snake whose
/// trail is within the cap keeps it within the cap through any step.
pub proof fn lemma_history_bounded(pre: Snake, post: Snake, width: usize, height: usize, dir: GameInput)
    requires
        advanced(pre, post, width, height, dir),
        post.size > 0,
    ensures
        post.pos_history@.len() < post.size,
{
}

} // verus!
