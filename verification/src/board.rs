//! The board: an occupancy grid derived from the snake each tick, plus a
//! freshly placed food cell chosen among the empty cells.

use vstd::prelude::*;

use rand::Rng;

use crate::snake::Coordinate;
use crate::snake::Snake;

verus! {

/// The derived view of one tick: a `map_width` x `map_height` grid of cell
/// values (0 = empty, 1 = snake segment, 2 = food), indexed `map[y][x]`,
/// and the coordinate of the current food cell, if one could be placed.
pub struct Board {
    pub map_width: usize,
    pub map_height: usize,
    pub map: Vec<Vec<u8>>,
    pub food_pos: Option<Coordinate>,
}

/// Whether the snake occupies `c`: its head sits there, or `c` is one of
/// the recorded previous head positions.
pub open spec fn covers(s: Snake, c: Coordinate) -> bool {
    c == s.pos || s.pos_history@.contains(c)
}

/// Like `covers`, but with only the first `n` trail entries marked so far.
pub open spec fn covers_prefix(s: Snake, n: int, c: Coordinate) -> bool {
    c == s.pos || s.pos_history@.take(n).contains(c)
}

/// The value a rebuild gives a cell: the food cell is 2, snake-covered
/// cells are 1, everything else is 0.
pub open spec fn rebuilt_cell(s: Snake, food: Option<Coordinate>, c: Coordinate) -> u8 {
    if food == Some(c) {
        2u8
    } else if covers(s, c) {
        1u8
    } else {
        0u8
    }
}

impl Board {
    /// The grid really is `map_width` columns by `map_height` rows.
    pub open spec fn wf(self) -> bool {
        &&& self.map@.len() == self.map_height
        &&& forall|y: int| 0 <= y < self.map@.len() ==> (#[trigger] self.map@[y])@.len() == self.map_width
    }

    /// The value stored at column `x`, row `y`.
    pub open spec fn cell(self, x: int, y: int) -> u8 {
        self.map@[y]@[x]
    }

    /// Whether `c` indexes a cell of this grid.
    pub open spec fn in_bounds(self, c: Coordinate) -> bool {
        c.x < self.map_width && c.y < self.map_height
    }
}

/// The relation a rebuild establishes between a board and the snake it was
/// derived from: every cell holds exactly the value `rebuilt_cell` gives it,
/// the food cell (when present) is an in-bounds cell the snake does not
/// cover, and food is absent only when the snake covers the whole grid.
pub open spec fn rebuilt_from(b: Board, s: Snake) -> bool {
    &&& b.wf()
    &&& forall|x: int, y: int| #![trigger b.cell(x, y)] 0 <= x < b.map_width && 0 <= y < b.map_height
        ==> b.cell(x, y) == rebuilt_cell(s, b.food_pos, Coordinate { x: x as usize, y: y as usize })
    &&& match b.food_pos {
        Some(f) => b.in_bounds(f) && !covers(s, f),
        None => forall|c: Coordinate| #[trigger] b.in_bounds(c) ==> covers(s, c),
    }
}

/// Relies on rand::thread_rng and rand::Rng::gen_range: sampling from the
/// range `0..n` panics when the range is empty and otherwise returns a
/// value of the range, so the result is strictly below `n`.
#[verifier::external_body]
fn random_below(n: usize) -> (r: usize)
    requires
        n > 0,
    ensures
        r < n,
{
    rand::thread_rng().gen_range(0..n)
}

/// A fully empty grid of the given dimensions, row-major.
fn zero_grid(width: usize, height: usize) -> (m: Vec<Vec<u8>>)
    ensures
        m@.len() == height,
        forall|y: int| 0 <= y < height ==> (#[trigger] m@[y])@.len() == width,
        forall|x: int, y: int| #![trigger m@[y]@[x]] 0 <= y < height && 0 <= x < width ==> m@[y]@[x] == 0,
{
    let mut m: Vec<Vec<u8>> = Vec::new();
    let mut y: usize = 0;
    while y < height
        invariant
            y <= height,
            m@.len() == y,
            forall|j: int| 0 <= j < y ==> (#[trigger] m@[j])@.len() == width,
            forall|x: int, j: int| #![trigger m@[j]@[x]] 0 <= j < y && 0 <= x < width ==> m@[j]@[x] == 0,
        decreases height - y,
    {
        let mut row: Vec<u8> = Vec::new();
        let mut x: usize = 0;
        while x < width
            invariant
                x <= width,
                row@.len() == x,
                forall|i: int| 0 <= i < x ==> row@[i] == 0,
            decreases width - x,
        {
            row.push(0);
            x += 1;
        }
        m.push(row);
        y += 1;
    }
    m
}

/// Extending a marked prefix of the trail by one entry covers exactly the
/// cells the shorter prefix covered, plus that entry.
proof fn lemma_take_succ_contains(s: Seq<Coordinate>, i: int, c: Coordinate)
    requires
        0 <= i < s.len(),
    ensures
        s.take(i + 1).contains(c) <==> (s.take(i).contains(c) || c == s[i]),
{
    if s.take(i + 1).contains(c) {
        let j = choose|j: int| 0 <= j < s.take(i + 1).len() && #[trigger] s.take(i + 1)[j] == c;
        if j < i {
            assert(s.take(i)[j] == c);
        }
    }
    if s.take(i).contains(c) {
        let j = choose|j: int| 0 <= j < s.take(i).len() && #[trigger] s.take(i)[j] == c;
        assert(s.take(i + 1)[j] == c);
    }
    if c == s[i] {
        assert(s.take(i + 1)[i] == c);
    }
}

impl Board {
    /// A fresh board: every cell empty, no food yet.
    pub fn new(width: usize, height: usize) -> (b: Board)
        ensures
            b.map_width == width,
            b.map_height == height,
            b.wf(),
            forall|x: int, y: int| #![trigger b.cell(x, y)] 0 <= x < width && 0 <= y < height
                ==> b.cell(x, y) == 0,
            b.food_pos is None,
    {
        Board { map_width: width, map_height: height, map: zero_grid(width, height), food_pos: None }
    }

    /// Store `val` at the cell `pos` indexes; every other cell keeps its value.
    pub fn replace_element(&mut self, pos: Coordinate, val: u8)
        requires
            old(self).wf(),
            pos.x < old(self).map_width,
            pos.y < old(self).map_height,
        ensures
            final(self).wf(),
            final(self).map_width == old(self).map_width,
            final(self).map_height == old(self).map_height,
            final(self).food_pos == old(self).food_pos,
            final(self).cell(pos.x as int, pos.y as int) == val,
            forall|x: int, y: int| #![trigger final(self).cell(x, y)]
                0 <= x < old(self).map_width && 0 <= y < old(self).map_height
                && !(x == pos.x && y == pos.y)
                ==> final(self).cell(x, y) == old(self).cell(x, y),
    {
        let mut row = self.map.remove(pos.y);
        row.remove(pos.x);
        row.insert(pos.x, val);
        proof {
            assert(row@ =~= old(self).map@[pos.y as int]@.update(pos.x as int, val));
        }
        self.map.insert(pos.y, row);
        proof {
            assert(self.map@ =~= old(self).map@.update(pos.y as int, self.map@[pos.y as int]));
        }
    }

    /// Every in-bounds cell currently holding 0, in row-major order.
    fn empty_cells(&self) -> (empties: Vec<Coordinate>)
        requires
            self.wf(),
        ensures
            forall|j: int| 0 <= j < empties@.len()
                ==> (#[trigger] empties@[j]).x < self.map_width && empties@[j].y < self.map_height
                    && self.cell(empties@[j].x as int, empties@[j].y as int) == 0,
            forall|x: int, y: int| #![trigger self.cell(x, y)]
                0 <= x < self.map_width && 0 <= y < self.map_height && self.cell(x, y) == 0
                ==> empties@.contains(Coordinate { x: x as usize, y: y as usize }),
    {
        let mut empties: Vec<Coordinate> = Vec::new();
        let mut y: usize = 0;
        while y < self.map_height
            invariant
                self.wf(),
                y <= self.map_height,
                forall|j: int| 0 <= j < empties@.len()
                    ==> (#[trigger] empties@[j]).x < self.map_width && empties@[j].y < self.map_height
                        && self.cell(empties@[j].x as int, empties@[j].y as int) == 0,
                forall|x: int, j: int| #![trigger self.cell(x, j)]
                    0 <= x < self.map_width && 0 <= j < y && self.cell(x, j) == 0
                    ==> empties@.contains(Coordinate { x: x as usize, y: j as usize }),
            decreases self.map_height - y,
        {
            let mut x: usize = 0;
            while x < self.map_width
                invariant
                    self.wf(),
                    y < self.map_height,
                    x <= self.map_width,
                    forall|j: int| 0 <= j < empties@.len()
                        ==> (#[trigger] empties@[j]).x < self.map_width && empties@[j].y < self.map_height
                            && self.cell(empties@[j].x as int, empties@[j].y as int) == 0,
                    forall|x0: int, j: int| #![trigger self.cell(x0, j)]
                        0 <= x0 < self.map_width && 0 <= j < y && self.cell(x0, j) == 0
                        ==> empties@.contains(Coordinate { x: x0 as usize, y: j as usize }),
                    forall|x0: int| #![trigger self.cell(x0, y as int)]
                        0 <= x0 < x && self.cell(x0, y as int) == 0
                        ==> empties@.contains(Coordinate { x: x0 as usize, y: y }),
                decreases self.map_width - x,
            {
                if self.map[y][x] == 0 {
                    let ghost pre = empties@;
                    empties.push(Coordinate { x, y });
                    proof {
                        assert forall|c: Coordinate| pre.contains(c) implies empties@.contains(c) by {
                            let j = choose|j: int| 0 <= j < pre.len() && #[trigger] pre[j] == c;
                            assert(empties@[j] == c);
                        }
                        assert(empties@[pre.len() as int] == (Coordinate { x, y }));
                    }
                }
                x += 1;
            }
            y += 1;
        }
        empties
    }

    /// Choose the food cell for this tick: one of the currently empty cells,
    /// sampled at random, or none at all when the grid has no empty cell.
    pub fn spawn_food(&mut self)
        requires
            old(self).wf(),
        ensures
            final(self).wf(),
            final(self).map_width == old(self).map_width,
            final(self).map_height == old(self).map_height,
            final(self).map@ == old(self).map@,
            match final(self).food_pos {
                Some(f) => f.x < old(self).map_width && f.y < old(self).map_height
                    && old(self).cell(f.x as int, f.y as int) == 0,
                None => forall|x: int, y: int| #![trigger old(self).cell(x, y)]
                    0 <= x < old(self).map_width && 0 <= y < old(self).map_height
                    ==> old(self).cell(x, y) != 0,
            },
    {
        let empties = self.empty_cells();
        if empties.len() == 0 {
            self.food_pos = None;
            proof {
                assert forall|x: int, y: int|
                    0 <= x < old(self).map_width && 0 <= y < old(self).map_height
                    implies #[trigger] old(self).cell(x, y) != 0 by {
                    if old(self).cell(x, y) == 0 {
                        assert(empties@.contains(Coordinate { x: x as usize, y: y as usize }));
                        assert(false);
                    }
                }
            }
        } else {
            let idx = random_below(empties.len());
            self.food_pos = Some(empties[idx]);
        }
    }

    /// Rebuild the whole grid from the snake: reset every cell, mark the
    /// head and each trail entry that lies on the grid as snake segments,
    /// then place and mark food.
    pub fn update(&mut self, snake: &Snake)
        ensures
            final(self).map_width == old(self).map_width,
            final(self).map_height == old(self).map_height,
            rebuilt_from(*final(self), *snake),
    {
        self.map = zero_grid(self.map_width, self.map_height);

        if snake.pos.x < self.map_width && snake.pos.y < self.map_height {
            self.replace_element(snake.pos, 1);
        }
        proof {
            assert forall|x: int, y: int| 0 <= x < self.map_width && 0 <= y < self.map_height
                implies #[trigger] self.cell(x, y) == (if covers_prefix(
                *snake,
                0,
                Coordinate { x: x as usize, y: y as usize },
            ) {
                1u8
            } else {
                0u8
            }) by {
                assert(!snake.pos_history@.take(0).contains(Coordinate { x: x as usize, y: y as usize }));
            }
        }

        let mut i: usize = 0;
        while i < snake.pos_history.len()
            invariant
                self.wf(),
                self.map_width == old(self).map_width,
                self.map_height == old(self).map_height,
                i <= snake.pos_history@.len(),
                forall|x: int, y: int| #![trigger self.cell(x, y)]
                    0 <= x < self.map_width && 0 <= y < self.map_height
                    ==> self.cell(x, y) == (if covers_prefix(
                        *snake,
                        i as int,
                        Coordinate { x: x as usize, y: y as usize },
                    ) {
                        1u8
                    } else {
                        0u8
                    }),
            decreases snake.pos_history@.len() - i,
        {
            let c = snake.pos_history[i];
            if c.x < self.map_width && c.y < self.map_height {
                self.replace_element(c, 1);
            }
            proof {
                assert forall|x: int, y: int| 0 <= x < self.map_width && 0 <= y < self.map_height
                    implies #[trigger] self.cell(x, y) == (if covers_prefix(
                    *snake,
                    i + 1,
                    Coordinate { x: x as usize, y: y as usize },
                ) {
                    1u8
                } else {
                    0u8
                }) by {
                    let cc = Coordinate { x: x as usize, y: y as usize };
                    lemma_take_succ_contains(snake.pos_history@, i as int, cc);
                }
            }
            i += 1;
        }
        proof {
            assert(snake.pos_history@.take(snake.pos_history@.len() as int) =~= snake.pos_history@);
        }
        let ghost mid = *self;
        assert(forall|x: int, y: int| #![trigger mid.cell(x, y)]
            0 <= x < mid.map_width && 0 <= y < mid.map_height
            ==> mid.cell(x, y) == (if covers(*snake, Coordinate { x: x as usize, y: y as usize }) {
                1u8
            } else {
                0u8
            }));

        self.spawn_food();
        let food = self.food_pos;
        if let Some(f) = food {
            self.replace_element(f, 2);
            proof {
                assert(mid.cell(f.x as int, f.y as int) == 0);
                assert(!covers(*snake, f));
                assert forall|x: int, y: int| 0 <= x < self.map_width && 0 <= y < self.map_height
                    implies #[trigger] self.cell(x, y) == rebuilt_cell(
                    *snake,
                    self.food_pos,
                    Coordinate { x: x as usize, y: y as usize },
                ) by {
                    let cc = Coordinate { x: x as usize, y: y as usize };
                    if cc != f {
                        assert(self.cell(x, y) == mid.cell(x, y));
                    }
                }
            }
        } else {
            proof {
                assert forall|c: Coordinate| #[trigger] self.in_bounds(c) implies covers(*snake, c) by {
                    assert(mid.cell(c.x as int, c.y as int) != 0);
                }
                assert forall|x: int, y: int| 0 <= x < self.map_width && 0 <= y < self.map_height
                    implies #[trigger] self.cell(x, y) == rebuilt_cell(
                    *snake,
                    self.food_pos,
                    Coordinate { x: x as usize, y: y as usize },
                ) by {
                    assert(self.cell(x, y) == mid.cell(x, y));
                }
            }
        }
    }
}

/// When at least one in-bounds cell is free of the snake, a rebuild places
/// food, and the food cells are then exactly one: a cell holds 2 exactly
/// when it is the chosen food position.
pub proof fn lemma_food_count(b: Board, s: Snake, w: Coordinate)
    requires
        rebuilt_from(b, s),
        b.in_bounds(w),
        !covers(s, w),
    ensures
        b.food_pos is Some,
        forall|x: int, y: int| #![trigger b.cell(x, y)] 0 <= x < b.map_width && 0 <= y < b.map_height
            ==> ((b.cell(x, y) == 2) <==> b.food_pos == Some(Coordinate { x: x as usize, y: y as usize })),
{
    assert(b.in_bounds(w));
}

/// After a rebuild, the snake segment cells are exactly the cells the head
/// or the trail covers, clipped to the grid: no other cell holds 1.
pub proof fn lemma_segments_exact(b: Board, s: Snake)
    requires
        rebuilt_from(b, s),
    ensures
        forall|x: int, y: int| #![trigger b.cell(x, y)] 0 <= x < b.map_width && 0 <= y < b.map_height
            ==> ((b.cell(x, y) == 1) <==> covers(s, Coordinate { x: x as usize, y: y as usize })),
{
}

/// Rebuilding twice from the same snake state marks the same snake segment
/// set: which cells hold 1 depends on the snake alone, not on the randomly
/// chosen food cell, which may differ between the two rebuilds.
pub proof fn lemma_rebuild_segments_deterministic(b1: Board, b2: Board, s: Snake)
    requires
        rebuilt_from(b1, s),
        rebuilt_from(b2, s),
        b1.map_width == b2.map_width,
        b1.map_height == b2.map_height,
    ensures
        forall|x: int, y: int| #![trigger b1.cell(x, y), b2.cell(x, y)]
            0 <= x < b1.map_width && 0 <= y < b1.map_height
            ==> ((b1.cell(x, y) == 1) <==> (b2.cell(x, y) == 1)),
{
    lemma_segments_exact(b1, s);
    lemma_segments_exact(b2, s);
}

} // verus!
