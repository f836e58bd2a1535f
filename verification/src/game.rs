//! The simulation engine: worm geometry, apple set, score, speed and the
//! alive flag, advanced by fixed time steps.
//!
//! A cell is a pair `(x, y)` of column and row. Cells with `x == 0`,
//! `x == width - 1`, `y == 0` or `y == height - 1` are wall cells; the
//! playable interior is everything strictly inside. The worm is an ordered
//! sequence of distinct interior cells, head first. Apples are interior
//! cells disjoint from the worm; an eaten apple is replaced within the same
//! tick, so their number never changes.

use vstd::prelude::*;

use crate::constants::{
    APPLE_COUNT, INITIAL_STEP_DURATION, MIN_STEP_DURATION, SCORE_BASE, STEP_DURATION_DECREMENT,
};
use crate::rng::{fresh_rng, random_below};

verus! {

/// A movement direction of the worm.
#[derive(Clone, Copy, PartialEq, Eq, Structural, Debug)]
pub enum Direction {
    Up,
    Down,
    Left,
    Right,
}

/// The whole state of one game attempt.
pub struct Game {
    /// Source of randomness for apple placement; opaque to verification.
    pub rng: rand::rngs::ThreadRng,
    /// Elapsed time accumulated since the last simulation step.
    pub frame_time: u32,
    /// Current time budget per simulation step.
    pub step_duration: u32,
    /// Arena width in cells, wall cells included.
    pub arena_width: u32,
    /// Arena height in cells, wall cells included.
    pub arena_height: u32,
    /// The worm's cells, head at index 0.
    pub worm: Vec<(u32, u32)>,
    /// The direction the worm moves in on the next step.
    pub direction: Direction,
    /// A queued direction change, applied at the start of the next step.
    pub new_direction: Option<Direction>,
    /// Set while a step lengthens the worm; always clear between steps.
    pub grow: bool,
    /// The apples currently on the arena.
    pub apples: Vec<(u32, u32)>,
    /// The score.
    pub points: u32,
    /// Cleared exactly once, on the step that hits a wall or the worm.
    pub alive: bool,
}

/// Does the cell lie strictly inside the walls?
pub open spec fn in_interior(w: u32, h: u32, c: (u32, u32)) -> bool {
    &&& 1 <= c.0 < w - 1
    &&& 1 <= c.1 < h - 1
}

/// Does the cell lie on a wall?
pub open spec fn on_border(w: u32, h: u32, c: (u32, u32)) -> bool {
    ||| c.0 == 0
    ||| c.0 == w - 1
    ||| c.1 == 0
    ||| c.1 == h - 1
}

/// Number of interior cells of a `w` by `h` arena.
pub open spec fn interior_size(w: u32, h: u32) -> int {
    (w - 2) * (h - 2)
}

/// The cell one step from `c` in direction `d`. Meaningful when `c` is an
/// interior cell, so that neither coordinate wraps.
pub open spec fn next_cell(c: (u32, u32), d: Direction) -> (u32, u32) {
    match d {
        Direction::Left => ((c.0 - 1) as u32, c.1),
        Direction::Right => ((c.0 + 1) as u32, c.1),
        Direction::Up => (c.0, (c.1 - 1) as u32),
        Direction::Down => (c.0, (c.1 + 1) as u32),
    }
}

/// The state `update_direction(d)` leaves behind: `d` is queued when no
/// change is pending yet and `d` differs from the current direction;
/// otherwise the call is a no-op.
pub open spec fn queue_direction(g: Game, d: Direction) -> Game {
    if g.new_direction is None && d != g.direction {
        Game { new_direction: Some(d), ..g }
    } else {
        g
    }
}

impl Game {
    /// Number of interior cells of this game's arena.
    pub open spec fn spec_interior(self) -> int {
        interior_size(self.arena_width, self.arena_height)
    }

    /// The worm is non-empty, all its cells are interior and distinct.
    pub open spec fn worm_ok(self) -> bool {
        &&& 1 <= self.worm@.len()
        &&& forall|i: int|
            0 <= i < self.worm@.len() ==> in_interior(
                self.arena_width,
                self.arena_height,
                #[trigger] self.worm@[i],
            )
        &&& forall|i: int, j: int|
            #![trigger self.worm@[i], self.worm@[j]]
            0 <= i < j < self.worm@.len() ==> self.worm@[i] != self.worm@[j]
    }

    /// There are exactly `APPLE_COUNT` apples, all interior, distinct, and
    /// none on a worm cell.
    pub open spec fn apples_ok(self) -> bool {
        &&& self.apples@.len() == APPLE_COUNT
        &&& forall|i: int|
            0 <= i < self.apples@.len() ==> in_interior(
                self.arena_width,
                self.arena_height,
                #[trigger] self.apples@[i],
            )
        &&& forall|i: int, j: int|
            #![trigger self.apples@[i], self.apples@[j]]
            0 <= i < j < self.apples@.len() ==> self.apples@[i] != self.apples@[j]
        &&& forall|i: int, j: int|
            #![trigger self.worm@[i], self.apples@[j]]
            0 <= i < self.worm@.len() && 0 <= j < self.apples@.len() ==> self.worm@[i]
                != self.apples@[j]
    }

    /// Well-formedness: every engine the public operations hand out
    /// satisfies this, and every operation preserves it.
    pub open spec fn wf(self) -> bool {
        &&& 3 <= self.arena_width
        &&& 3 <= self.arena_height
        &&& 1 + APPLE_COUNT <= self.spec_interior()
        &&& MIN_STEP_DURATION <= self.step_duration <= INITIAL_STEP_DURATION
        &&& !self.grow
        &&& self.worm_ok()
        &&& self.apples_ok()
    }

    /// The direction the next step will move in: the queued change if one
    /// is pending, the current direction otherwise.
    pub open spec fn effective_direction(self) -> Direction {
        match self.new_direction {
            Some(d) => d,
            None => self.direction,
        }
    }

    /// The cell the head enters on the next step.
    pub open spec fn spec_new_head(self) -> (u32, u32) {
        next_cell(self.worm@[0], self.effective_direction())
    }

    /// Entering `c` is fatal: it is a wall cell or a worm cell other than
    /// the current head.
    pub open spec fn head_blocked(self, c: (u32, u32)) -> bool {
        ||| on_border(self.arena_width, self.arena_height, c)
        ||| self.worm@.skip(1).contains(c)
    }

    /// The next step kills the worm.
    pub open spec fn fatal_move(self) -> bool {
        self.head_blocked(self.spec_new_head())
    }

    /// The next step moves the head onto an apple.
    pub open spec fn eats_apple(self) -> bool {
        &&& !self.fatal_move()
        &&& self.apples@.contains(self.spec_new_head())
    }

    /// Does `tick(elapsed)` perform a simulation step? It does exactly when
    /// the accumulated time reaches the step duration.
    pub open spec fn steps(self, elapsed: u32) -> bool {
        self.frame_time.saturating_add(elapsed) >= self.step_duration
    }

    /// The worm after a live, non-fatal step: the new head is prepended,
    /// and unless an apple is eaten the tail cell is given up.
    pub open spec fn moved_worm(self) -> Seq<(u32, u32)> {
        if self.eats_apple() {
            seq![self.spec_new_head()] + self.worm@
        } else {
            seq![self.spec_new_head()] + self.worm@.drop_last()
        }
    }
}

/// The step duration after an apple is eaten: shrunk by the fixed
/// decrement, clamped at the minimum.
pub open spec fn next_step_duration(sd: u32) -> u32 {
    if sd - STEP_DURATION_DECREMENT >= MIN_STEP_DURATION {
        (sd - STEP_DURATION_DECREMENT) as u32
    } else {
        MIN_STEP_DURATION
    }
}

/// Points awarded for an apple eaten while the step duration is `sd`.
pub open spec fn apple_score(sd: u32) -> u32 {
    (SCORE_BASE as int / sd as int) as u32
}

/// Everything outside the frame-time accumulator is unchanged.
pub open spec fn unchanged_but_frame_time(pre: Game, post: Game) -> bool {
    &&& post.step_duration == pre.step_duration
    &&& post.worm@ == pre.worm@
    &&& post.direction == pre.direction
    &&& post.new_direction == pre.new_direction
    &&& post.grow == pre.grow
    &&& post.apples@ == pre.apples@
    &&& post.points == pre.points
    &&& post.alive == pre.alive
}

/// The eaten apple was replaced: the first occurrence of the new head cell
/// left the apple list, and one fresh apple was appended, interior and on
/// no worm cell and no other apple.
pub open spec fn apple_respawned(pre: Game, post: Game) -> bool {
    let rest = pre.apples@.remove_value(pre.spec_new_head());
    let fresh = post.apples@.last();
    &&& post.apples@.len() == pre.apples@.len()
    &&& post.apples@.drop_last() == rest
    &&& in_interior(pre.arena_width, pre.arena_height, fresh)
    &&& !rest.contains(fresh)
    &&& !post.worm@.contains(fresh)
}

/// Full relation between the engine before and after `tick(elapsed)`.
/// The position of a freshly spawned apple is the single thing it leaves
/// open, since that cell is drawn at random.
pub open spec fn tick_rel(pre: Game, elapsed: u32, post: Game) -> bool {
    &&& post.arena_width == pre.arena_width
    &&& post.arena_height == pre.arena_height
    &&& if !pre.steps(elapsed) {
        &&& post.frame_time == pre.frame_time.saturating_add(elapsed)
        &&& unchanged_but_frame_time(pre, post)
    } else {
        &&& post.frame_time == pre.frame_time.saturating_add(elapsed) - pre.step_duration
        &&& if !pre.alive {
            unchanged_but_frame_time(pre, post)
        } else {
            &&& post.direction == pre.effective_direction()
            &&& post.new_direction is None
            &&& post.grow == pre.grow
            &&& if pre.fatal_move() {
                &&& !post.alive
                &&& post.worm@ == pre.worm@
                &&& post.apples@ == pre.apples@
                &&& post.points == pre.points
                &&& post.step_duration == pre.step_duration
            } else {
                &&& post.alive
                &&& post.worm@ == pre.moved_worm()
                &&& if pre.eats_apple() {
                    &&& apple_respawned(pre, post)
                    &&& post.points == pre.points.saturating_add(apple_score(pre.step_duration))
                    &&& post.step_duration == next_step_duration(pre.step_duration)
                } else {
                    &&& post.apples@ == pre.apples@
                    &&& post.points == pre.points
                    &&& post.step_duration == pre.step_duration
                }
            }
        }
    }
}

/// What a freshly constructed engine for a `w` by `h` arena looks like:
/// everything is pinned down except where the first apple landed.
pub open spec fn fresh_game(g: Game, w: u32, h: u32) -> bool {
    &&& g.arena_width == w
    &&& g.arena_height == h
    &&& g.frame_time == 0
    &&& g.step_duration == INITIAL_STEP_DURATION
    &&& g.worm@ == seq![(w / 2, h / 2)]
    &&& g.direction == Direction::Right
    &&& g.new_direction is None
    &&& !g.grow
    &&& g.points == 0
    &&& g.alive
    &&& g.apples_ok()
}

/// Is `c` one of the cells of `v`?
fn contains_cell(v: &Vec<(u32, u32)>, c: (u32, u32)) -> (r: bool)
    ensures
        r == v@.contains(c),
{
    let mut i: usize = 0;
    while i < v.len()
        invariant
            i <= v@.len(),
            forall|k: int| 0 <= k < i ==> v@[k] != c,
        decreases v@.len() - i,
    {
        let e = v[i];
        if e.0 == c.0 && e.1 == c.1 {
            assert(v@[i as int] == c);
            return true;
        }
        i += 1;
    }
    false
}

/// Does `c` come before column `x`, row `y` in column-major scan order?
spec fn scanned_before(c: (u32, u32), x: u32, y: u32) -> bool {
    ||| c.0 < x
    ||| (c.0 == x && c.1 < y)
}

impl Game {
    /// Place one more apple: a cell drawn uniformly at random among the
    /// interior cells that hold neither a worm segment nor an apple. The
    /// precondition guarantees that such a cell exists.
    pub fn add_apple(&mut self)
        requires
            3 <= old(self).arena_width,
            3 <= old(self).arena_height,
            old(self).worm@.len() + old(self).apples@.len() < interior_size(
                old(self).arena_width,
                old(self).arena_height,
            ),
        ensures
            final(self).apples@.len() == old(self).apples@.len() + 1,
            final(self).apples@.drop_last() == old(self).apples@,
            in_interior(
                old(self).arena_width,
                old(self).arena_height,
                final(self).apples@.last(),
            ),
            !old(self).apples@.contains(final(self).apples@.last()),
            !old(self).worm@.contains(final(self).apples@.last()),
            final(self).worm@ == old(self).worm@,
            final(self).arena_width == old(self).arena_width,
            final(self).arena_height == old(self).arena_height,
            final(self).frame_time == old(self).frame_time,
            final(self).step_duration == old(self).step_duration,
            final(self).direction == old(self).direction,
            final(self).new_direction == old(self).new_direction,
            final(self).grow == old(self).grow,
            final(self).points == old(self).points,
            final(self).alive == old(self).alive,
    {
        let w = self.arena_width;
        let h = self.arena_height;
        let mut free: Vec<(u32, u32)> = Vec::new();
        let ghost mut occ: Set<(u32, u32)> = Set::empty();
        let mut x: u32 = 1;
        while x < w - 1
            invariant
                *self == *old(self),
                w == self.arena_width,
                h == self.arena_height,
                3 <= w,
                3 <= h,
                1 <= x <= w - 1,
                free@.len() + occ.len() == (x - 1) * (h - 2),
                occ.finite(),
                forall|c: (u32, u32)| #[trigger]
                    occ.contains(c) ==> (self.worm@.contains(c) || self.apples@.contains(c))
                        && scanned_before(c, x, 1),
                forall|k: int|
                    0 <= k < free@.len() ==> in_interior(w, h, #[trigger] free@[k])
                        && !self.worm@.contains(free@[k]) && !self.apples@.contains(free@[k]),
            decreases w - 1 - x,
        {
            let mut y: u32 = 1;
            while y < h - 1
                invariant
                    *self == *old(self),
                    w == self.arena_width,
                    h == self.arena_height,
                    3 <= w,
                    3 <= h,
                    1 <= x < w - 1,
                    1 <= y <= h - 1,
                    free@.len() + occ.len() == (x - 1) * (h - 2) + (y - 1),
                    occ.finite(),
                    forall|c: (u32, u32)| #[trigger]
                        occ.contains(c) ==> (self.worm@.contains(c) || self.apples@.contains(c))
                            && scanned_before(c, x, y),
                    forall|k: int|
                        0 <= k < free@.len() ==> in_interior(w, h, #[trigger] free@[k])
                            && !self.worm@.contains(free@[k]) && !self.apples@.contains(free@[k]),
                decreases h - 1 - y,
            {
                let c = (x, y);
                if !contains_cell(&self.apples, c) && !contains_cell(&self.worm, c) {
                    free.push(c);
                } else {
                    proof {
                        assert(!occ.contains(c));
                        occ = occ.insert(c);
                    }
                }
                y += 1;
            }
            proof {
                assert((x - 1) * (h - 2) + (h - 2) == ((x + 1) - 1) * (h - 2)) by (nonlinear_arith);
            }
            x += 1;
        }
        proof {
            broadcast use vstd::seq_lib::seq_to_set_is_finite;

            let ws = self.worm@.to_set();
            let aps = self.apples@.to_set();
            self.worm@.lemma_cardinality_of_set();
            self.apples@.lemma_cardinality_of_set();
            vstd::set_lib::lemma_len_union(ws, aps);
            assert(occ.subset_of(ws.union(aps)));
            vstd::set_lib::lemma_len_subset(occ, ws.union(aps));
        }
        let i = random_below(&mut self.rng, free.len());
        let c = free[i];
        self.apples.push(c);
        proof {
            assert(self.apples@.drop_last() =~= old(self).apples@);
        }
    }

    /// Build a fresh engine for a `width` by `height` arena: one worm
    /// segment at the center, heading right, score zero, initial speed, and
    /// the apples placed at random free interior cells. The arena must
    /// leave room in the interior for the worm segment and the apples.
    pub fn new(arena_width: u32, arena_height: u32) -> (g: Game)
        requires
            3 <= arena_width,
            3 <= arena_height,
            1 + APPLE_COUNT <= interior_size(arena_width, arena_height),
        ensures
            g.wf(),
            fresh_game(g, arena_width, arena_height),
    {
        let x = arena_width / 2;
        let y = arena_height / 2;
        let mut worm: Vec<(u32, u32)> = Vec::new();
        worm.push((x, y));
        let mut game = Game {
            rng: fresh_rng(),
            frame_time: 0,
            step_duration: INITIAL_STEP_DURATION,
            arena_width,
            arena_height,
            worm,
            direction: Direction::Right,
            new_direction: None,
            grow: false,
            apples: Vec::new(),
            points: 0,
            alive: true,
        };
        assert(game.worm@ =~= seq![(arena_width / 2, arena_height / 2)]);
        assert(in_interior(arena_width, arena_height, (x, y)));
        while game.apples.len() < APPLE_COUNT
            invariant
                game.apples@.len() <= APPLE_COUNT,
                game.arena_width == arena_width,
                game.arena_height == arena_height,
                game.frame_time == 0,
                game.step_duration == INITIAL_STEP_DURATION,
                game.worm@ == seq![(arena_width / 2, arena_height / 2)],
                game.direction == Direction::Right,
                game.new_direction is None,
                !game.grow,
                game.points == 0,
                game.alive,
                3 <= arena_width,
                3 <= arena_height,
                1 + APPLE_COUNT <= interior_size(arena_width, arena_height),
                in_interior(arena_width, arena_height, (arena_width / 2, arena_height / 2)),
                forall|i: int|
                    0 <= i < game.apples@.len() ==> in_interior(
                        arena_width,
                        arena_height,
                        #[trigger] game.apples@[i],
                    ),
                forall|i: int, j: int|
                    #![trigger game.apples@[i], game.apples@[j]]
                    0 <= i < j < game.apples@.len() ==> game.apples@[i] != game.apples@[j],
                forall|i: int, j: int|
                    #![trigger game.worm@[i], game.apples@[j]]
                    0 <= i < game.worm@.len() && 0 <= j < game.apples@.len() ==> game.worm@[i]
                        != game.apples@[j],
            decreases APPLE_COUNT - game.apples@.len(),
        {
            game.add_apple();
        }
        game
    }

    /// Replace the whole engine state with a freshly constructed one for
    /// the same arena. No partial state survives.
    pub fn reset(&mut self)
        requires
            old(self).wf(),
        ensures
            final(self).wf(),
            fresh_game(*final(self), old(self).arena_width, old(self).arena_height),
    {
        *self = Game::new(self.arena_width, self.arena_height);
    }

    /// Queue a direction change: `d` is remembered when no change is
    /// pending yet and `d` differs from the current direction; any other
    /// call is silently dropped. Never fails.
    pub fn update_direction(&mut self, new_direction: Direction)
        ensures
            *final(self) == queue_direction(*old(self), new_direction),
    {
        if self.new_direction.is_none() && new_direction != self.direction {
            self.new_direction = Some(new_direction);
        }
    }

    /// Would the head die on entering `head`: a wall cell, or a worm cell
    /// other than the current head?
    fn head_hits_something(&self, head: (u32, u32)) -> (r: bool)
        requires
            1 <= self.arena_width,
            1 <= self.arena_height,
            1 <= self.worm@.len(),
        ensures
            r == self.head_blocked(head),
    {
        if head.0 == 0 || head.0 == self.arena_width - 1 || head.1 == 0 || head.1
            == self.arena_height - 1 {
            return true;
        }
        let mut i: usize = 1;
        while i < self.worm.len()
            invariant
                1 <= i,
                forall|k: int| 1 <= k < i ==> self.worm@[k] != head,
            decreases self.worm@.len() - i,
        {
            let e = self.worm[i];
            if e.0 == head.0 && e.1 == head.1 {
                assert(self.worm@.skip(1)[i - 1] == head);
                return true;
            }
            i += 1;
        }
        proof {
            assert forall|j: int| 0 <= j < self.worm@.skip(1).len() implies self.worm@.skip(1)[j]
                != head by {
                assert(self.worm@.skip(1)[j] == self.worm@[j + 1]);
            }
        }
        false
    }

    /// The position of `head` in the apple list, if an apple sits there.
    fn has_apple(&self, head: (u32, u32)) -> (r: Option<usize>)
        ensures
            match r {
                Some(i) => {
                    &&& i < self.apples@.len()
                    &&& self.apples@[i as int] == head
                    &&& forall|j: int| 0 <= j < i ==> self.apples@[j] != head
                },
                None => !self.apples@.contains(head),
            },
    {
        let mut i: usize = 0;
        while i < self.apples.len()
            invariant
                i <= self.apples@.len(),
                forall|k: int| 0 <= k < i ==> self.apples@[k] != head,
            decreases self.apples@.len() - i,
        {
            let e = self.apples[i];
            if e.0 == head.0 && e.1 == head.1 {
                return Some(i);
            }
            i += 1;
        }
        None
    }

    /// Advance time by `time_diff` and perform at most one simulation step.
    /// Without a step the call only accumulates time and returns false.
    /// A step consumes one step duration, applies a queued direction
    /// change, moves the head one cell, and either kills the worm (wall or
    /// self collision), or moves it, eating and replacing an apple when the
    /// head lands on one: the worm grows by one, the score rises by
    /// `SCORE_BASE / step_duration`, and the step duration shrinks.
    /// Returns whether a step was performed, fatal or not.
    ///
    /// Eating requires a free interior cell for the replacement apple; the
    /// second precondition leaves out exactly the states where the arena
    /// would have none.
    pub fn tick(&mut self, time_diff: u32) -> (stepped: bool)
        requires
            old(self).wf(),
            old(self).steps(time_diff) && old(self).alive && old(self).eats_apple() ==> old(
                self,
            ).worm@.len() + APPLE_COUNT < old(self).spec_interior(),
        ensures
            final(self).wf(),
            tick_rel(*old(self), time_diff, *final(self)),
            stepped == old(self).steps(time_diff),
    {
        self.frame_time = self.frame_time.saturating_add(time_diff);
        if self.frame_time < self.step_duration {
            return false;
        }
        self.frame_time = self.frame_time - self.step_duration;
        if !self.alive {
            return true;
        }
        if let Some(d) = self.new_direction {
            self.direction = d;
            self.new_direction = None;
        }
        assert(self.direction == old(self).effective_direction());
        let head = self.worm[0];
        assert(in_interior(self.arena_width, self.arena_height, head));
        let new_head = match self.direction {
            Direction::Left => (head.0 - 1, head.1),
            Direction::Right => (head.0 + 1, head.1),
            Direction::Up => (head.0, head.1 - 1),
            Direction::Down => (head.0, head.1 + 1),
        };
        assert(new_head == old(self).spec_new_head());
        assert(new_head != head);
        if self.head_hits_something(new_head) {
            self.alive = false;
            return true;
        }
        assert(!old(self).fatal_move());
        proof {
            assert forall|k: int| 1 <= k < self.worm@.len() implies self.worm@[k]
                != new_head by {
                assert(self.worm@.skip(1)[k - 1] == self.worm@[k]);
            }
            assert(in_interior(self.arena_width, self.arena_height, new_head));
        }
        let apple_idx = self.has_apple(new_head);
        if apple_idx.is_some() {
            self.grow = true;
        }
        let ghost worm_before = self.worm@;
        if self.grow {
            self.worm.insert(0, new_head);
            self.grow = false;
        } else {
            self.worm.insert(0, new_head);
            self.worm.pop();
        }
        proof {
            assert(worm_before.insert(0, new_head) =~= seq![new_head] + worm_before);
            if apple_idx is None {
                assert(self.worm@ =~= seq![new_head] + worm_before.drop_last());
            }
            assert(self.worm@ == old(self).moved_worm());
            assert forall|i: int, j: int|
                #![trigger self.worm@[i], self.worm@[j]]
                0 <= i < j < self.worm@.len() implies self.worm@[i] != self.worm@[j] by {
                assert(self.worm@[j] == worm_before[j - 1]);
                if i > 0 {
                    assert(self.worm@[i] == worm_before[i - 1]);
                }
            }
        }
        if let Some(i) = apple_idx {
            let ghost apples_before = self.apples@;
            self.apples.remove(i);
            proof {
                apples_before.index_of_first_ensures(new_head);
                assert(apples_before.index_of_first(new_head) == Some(i as int));
                assert(self.apples@ == apples_before.remove_value(new_head));
                assert forall|j: int| 0 <= j < self.apples@.len() implies (
                    in_interior(self.arena_width, self.arena_height, #[trigger] self.apples@[j])
                    && self.apples@[j] != new_head
                    && !worm_before.contains(self.apples@[j])) by {
                    if j < i {
                        assert(self.apples@[j] == apples_before[j]);
                    } else {
                        assert(self.apples@[j] == apples_before[j + 1]);
                    }
                    assert(forall|k: int|
                        0 <= k < worm_before.len() ==> worm_before[k] != apples_before[j]
                            && worm_before[k] != apples_before[j + 1]);
                }
            }
            self.add_apple();
            self.points = self.points.saturating_add(SCORE_BASE / self.step_duration);
            self.step_duration = if self.step_duration - STEP_DURATION_DECREMENT
                >= MIN_STEP_DURATION {
                self.step_duration - STEP_DURATION_DECREMENT
            } else {
                MIN_STEP_DURATION
            };
            proof {
                assert(apple_respawned(*old(self), *self));
            }
        }
        true
    }
}

/// Law: the worm never shrinks; the step that eats an apple lengthens it
/// by exactly one, and every other tick leaves its length unchanged.
pub proof fn lemma_worm_length(pre: Game, elapsed: u32, post: Game)
    requires
        pre.wf(),
        tick_rel(pre, elapsed, post),
    ensures
        post.worm@.len() >= pre.worm@.len(),
        pre.steps(elapsed) && pre.alive && pre.eats_apple() ==> post.worm@.len() == pre.worm@.len()
            + 1,
        !(pre.steps(elapsed) && pre.alive && pre.eats_apple()) ==> post.worm@.len()
            == pre.worm@.len(),
{
}

/// Law: after any tick the worm's head is on a wall cell for no live
/// worm; a move that would enter a wall kills the worm on that same tick
/// and leaves its cells untouched.
pub proof fn lemma_head_never_on_border(pre: Game, elapsed: u32, post: Game)
    requires
        pre.wf(),
        tick_rel(pre, elapsed, post),
    ensures
        post.alive ==> in_interior(post.arena_width, post.arena_height, post.worm@[0]),
        pre.steps(elapsed) && pre.alive && on_border(
            pre.arena_width,
            pre.arena_height,
            pre.spec_new_head(),
        ) ==> !post.alive && post.worm@ == pre.worm@,
{
    if post.alive {
        if pre.steps(elapsed) && pre.alive && !pre.fatal_move() {
            assert(in_interior(pre.arena_width, pre.arena_height, pre.worm@[0]));
            assert(post.worm@[0] == pre.spec_new_head());
            assert(!on_border(pre.arena_width, pre.arena_height, pre.spec_new_head()));
        } else {
            assert(post.worm@ == pre.worm@);
            assert(in_interior(pre.arena_width, pre.arena_height, pre.worm@[0]));
        }
    }
}

/// Law: a tick never changes the number of apples: an eaten apple is
/// replaced within the same tick.
pub proof fn lemma_apple_count_constant(pre: Game, elapsed: u32, post: Game)
    requires
        pre.wf(),
        tick_rel(pre, elapsed, post),
    ensures
        post.apples@.len() == pre.apples@.len(),
        post.apples@.len() == APPLE_COUNT,
{
}

/// Law: in every well-formed engine state, so after every construction,
/// reset and tick, no apple sits on a worm cell.
pub proof fn lemma_apples_off_worm(g: Game)
    requires
        g.wf(),
    ensures
        forall|i: int, j: int|
            #![trigger g.worm@[i], g.apples@[j]]
            0 <= i < g.worm@.len() && 0 <= j < g.apples@.len() ==> g.worm@[i] != g.apples@[j],
{
}

/// Law: of two differing direction changes requested before the next
/// tick, only the first takes effect; the second is dropped.
pub proof fn lemma_second_direction_change_dropped(g: Game, d1: Direction, d2: Direction)
    requires
        g.new_direction is None,
        d1 != g.direction,
    ensures
        queue_direction(queue_direction(g, d1), d2).new_direction == Some(d1),
{
}

/// Law: requesting the direction the worm already moves in is a no-op
/// and queues nothing.
pub proof fn lemma_same_direction_is_noop(g: Game)
    ensures
        queue_direction(g, g.direction) == g,
{
}

/// Law: the score never falls over a tick.
pub proof fn lemma_score_monotonic(pre: Game, elapsed: u32, post: Game)
    requires
        pre.wf(),
        tick_rel(pre, elapsed, post),
    ensures
        post.points >= pre.points,
{
}

/// Law: a freshly constructed or reset engine starts with score zero.
pub proof fn lemma_fresh_score_zero(g: Game, w: u32, h: u32)
    requires
        fresh_game(g, w, h),
    ensures
        g.points == 0,
{
}

/// Law: the step duration never rises, never falls below the configured
/// minimum, and the step that eats an apple shrinks it by the fixed
/// decrement until the clamp.
pub proof fn lemma_step_duration(pre: Game, elapsed: u32, post: Game)
    requires
        pre.wf(),
        tick_rel(pre, elapsed, post),
    ensures
        post.step_duration <= pre.step_duration,
        MIN_STEP_DURATION <= post.step_duration,
        pre.steps(elapsed) && pre.alive && pre.eats_apple() ==> post.step_duration
            == next_step_duration(pre.step_duration),
{
}

/// Law: a reset engine answers every query exactly as a freshly
/// constructed engine for the same arena does, apart from where the
/// random apples landed.
pub proof fn lemma_fresh_games_agree(g1: Game, g2: Game, w: u32, h: u32)
    requires
        fresh_game(g1, w, h),
        fresh_game(g2, w, h),
    ensures
        g1.worm@ == g2.worm@,
        g1.direction == g2.direction,
        g1.new_direction == g2.new_direction,
        g1.points == g2.points,
        g1.step_duration == g2.step_duration,
        g1.frame_time == g2.frame_time,
        g1.alive == g2.alive,
        g1.grow == g2.grow,
        g1.apples@.len() == g2.apples@.len(),
{
}

} // verus!
