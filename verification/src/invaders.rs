//! The invading army: its formation, its march across the grid and down, and
//! the conditions that end a round.

use crate::frame::{cells, frame_wf, put, set_cell, Frame};
use crate::timer::{
    clock, duration_nanos, timer_finished, timer_from_millis, timer_reset, timer_tick, Clock,
};
use crate::{Direction, INVADER_MULTIPLIER, NUM_COLS, NUM_ROWS};
use rusty_time::Timer;
use std::time::Duration;
use vstd::prelude::*;

verus! {

/// One invader, by the cell it stands in.
pub struct Invader {
    pub x: usize,
    pub y: usize,
}

impl Invader {
    /// The invader in column `x`, row `y`.
    pub fn new(x: usize, y: usize) -> (i: Self)
        ensures
            i.x == x,
            i.y == y,
    {
        Self { x, y }
    }
}

/// Some invader stands in column 0, or none is left.
pub open spec fn at_left_edge(army: Seq<Invader>) -> bool {
    army.len() == 0 || exists|i: int| 0 <= i < army.len() && (#[trigger] army[i]).x == 0
}

/// Some invader stands in the last column.
pub open spec fn at_right_edge(army: Seq<Invader>) -> bool {
    exists|i: int| 0 <= i < army.len() && (#[trigger] army[i]).x == NUM_COLS - 1
}

/// The direction after a step that starts out in `dir`, and whether that step
/// goes down: marching left with the left edge reached turns the army right;
/// marching right (also after such a turn) with the right edge reached turns
/// it left; each turn sends the step down.
pub open spec fn turn(dir: Direction, army: Seq<Invader>) -> (Direction, bool) {
    let first = dir == Direction::Left && at_left_edge(army);
    let mid = if first {
        Direction::Right
    } else {
        dir
    };
    let second = mid == Direction::Right && at_right_edge(army);
    (
        if second {
            Direction::Left
        } else {
            mid
        },
        first || second,
    )
}

/// The invader one row down, unless it is in the last row already.
pub open spec fn lowered(a: Invader) -> Invader {
    Invader {
        x: a.x,
        y: if a.y + 1 >= NUM_ROWS {
            a.y
        } else {
            (a.y + 1) as usize
        },
    }
}

/// The invader one column on in direction `d`, unless that leaves the grid.
pub open spec fn shifted(a: Invader, d: Direction) -> Invader {
    let x = a.x + d.spec_offset();
    Invader {
        x: if 0 <= x < NUM_COLS {
            x as usize
        } else {
            a.x
        },
        y: a.y,
    }
}

/// The army after one step that starts out in `dir`: every invader goes down
/// when the army turns, and sideways when it does not.
pub open spec fn marched(army: Seq<Invader>, dir: Direction) -> Seq<Invader> {
    let (d, down) = turn(dir, army);
    Seq::new(
        army.len(),
        |i: int|
            if down {
                lowered(army[i])
            } else {
                shifted(army[i], d)
            },
    )
}

/// The index of the first invader in column `x`, row `y`, if there is one.
pub open spec fn is_first_at(army: Seq<Invader>, x: usize, y: usize, i: int) -> bool {
    &&& 0 <= i < army.len()
    &&& army[i].x == x && army[i].y == y
    &&& forall|j: int| 0 <= j < i ==> !((#[trigger] army[j]).x == x && army[j].y == y)
}

/// No invader stands in column `x`, row `y`.
pub open spec fn none_at(army: Seq<Invader>, x: usize, y: usize) -> bool {
    forall|j: int| 0 <= j < army.len() ==> !((#[trigger] army[j]).x == x && army[j].y == y)
}

/// The grid with every invader of `army` drawn as `c`, in order.
pub open spec fn painted(grid: Seq<Seq<char>>, army: Seq<Invader>, c: char) -> Seq<Seq<char>>
    decreases army.len(),
{
    if army.len() == 0 {
        grid
    } else {
        put(painted(grid, army.drop_last(), c), army.last().x as int, army.last().y as int, c)
    }
}

/// The army, the timer that paces its march, and the direction it marches in.
pub struct Invaders {
    pub army: Vec<Invader>,
    pub move_timer: Timer,
    pub direction: Direction,
}

impl Invaders {
    /// Every invader stands inside the grid.
    pub open spec fn wf(&self) -> bool {
        forall|i: int|
            0 <= i < self.army.len() ==> (#[trigger] self.army[i]).x < NUM_COLS && self.army[i].y
                < NUM_ROWS
    }

    /// Checks that every invader stands inside the grid.
    pub fn in_grid(&self) -> (ok: bool)
        ensures
            ok == self.wf(),
    {
        let mut i: usize = 0;
        while i < self.army.len()
            invariant
                i <= self.army.len(),
                forall|j: int|
                    0 <= j < i ==> (#[trigger] self.army[j]).x < NUM_COLS && self.army[j].y
                        < NUM_ROWS,
            decreases self.army.len() - i,
        {
            if self.army[i].x >= NUM_COLS || self.army[i].y >= NUM_ROWS {
                return false;
            }
            i += 1;
        }
        true
    }

    /// A fresh army that takes a step every `move_period_ms` milliseconds and
    /// starts out to the left. It stands in 18 columns of 4: every second
    /// column from 2 to 36, every second row from 2 to 8, column by column.
    pub fn new(move_period_ms: u64) -> (s: Self)
        ensures
            s.wf(),
            s.direction == Direction::Left,
            clock(s.move_timer) == Clock::start(move_period_ms),
            s.army.len() == 72,
            forall|i: int|
                0 <= i < 72 ==> (#[trigger] s.army[i]).x == 2 + 2 * (i / 4) && s.army[i].y == 2 + 2
                    * (i % 4),
    {
        let mut army: Vec<Invader> = Vec::new();
        let mut x: usize = 2;
        while x < NUM_COLS - 2
            invariant
                2 <= x <= NUM_COLS - 2,
                x % 2 == 0,
                army.len() == 4 * ((x - 2) / 2),
                forall|i: int|
                    0 <= i < army.len() ==> (#[trigger] army[i]).x == 2 + 2 * (i / 4) && army[i].y
                        == 2 + 2 * (i % 4),
            decreases NUM_COLS - x,
        {
            let mut y: usize = 2;
            while y < INVADER_MULTIPLIER as usize
                invariant
                    2 <= x < NUM_COLS - 2,
                    x % 2 == 0,
                    2 <= y <= 10,
                    y % 2 == 0,
                    army.len() == 4 * ((x - 2) / 2) + (y - 2) / 2,
                    forall|i: int|
                        0 <= i < army.len() ==> (#[trigger] army[i]).x == 2 + 2 * (i / 4)
                            && army[i].y == 2 + 2 * (i % 4),
                decreases 10 - y,
            {
                army.push(Invader::new(x, y));
                y += 2;
            }
            x += 2;
        }
        Self { army, move_timer: timer_from_millis(move_period_ms), direction: Direction::Left }
    }

    fn any_in_column(&self, x: usize) -> (found: bool)
        ensures
            found == exists|i: int| 0 <= i < self.army.len() && (#[trigger] self.army[i]).x == x,
    {
        let mut i: usize = 0;
        while i < self.army.len()
            invariant
                i <= self.army.len(),
                forall|j: int| 0 <= j < i ==> (#[trigger] self.army[j]).x != x,
            decreases self.army.len() - i,
        {
            if self.army[i].x == x {
                return true;
            }
            i += 1;
        }
        false
    }

    /// Takes one step: sideways in the current direction, or, at an edge,
    /// down with the direction turned.
    pub fn advance(&mut self)
        requires
            old(self).wf(),
        ensures
            final(self).wf(),
            final(self).direction == turn(old(self).direction, old(self).army@).0,
            final(self).army@ == marched(old(self).army@, old(self).direction),
            final(self).move_timer == old(self).move_timer,
    {
        let mut downwards = false;
        if self.direction == Direction::Left {
            if self.army.len() == 0 || self.any_in_column(0) {
                self.direction = Direction::Right;
                downwards = true;
            }
        }
        if self.direction == Direction::Right {
            if self.any_in_column(NUM_COLS - 1) {
                self.direction = Direction::Left;
                downwards = true;
            }
        }
        assert((self.direction, downwards) == turn(old(self).direction, old(self).army@));
        let n = self.army.len();
        let mut i: usize = 0;
        while i < n
            invariant
                i <= n,
                n == self.army.len(),
                n == old(self).army.len(),
                old(self).wf(),
                self.direction == turn(old(self).direction, old(self).army@).0,
                downwards == turn(old(self).direction, old(self).army@).1,
                self.move_timer == old(self).move_timer,
                forall|j: int|
                    0 <= j < i ==> (#[trigger] self.army[j]) == marched(
                        old(self).army@,
                        old(self).direction,
                    )[j],
                forall|j: int| i <= j < n ==> (#[trigger] self.army[j]) == old(self).army[j],
            decreases n - i,
        {
            if downwards {
                if self.army[i].y + 1 < NUM_ROWS {
                    self.army[i].y += 1;
                }
            } else {
                match self.direction {
                    Direction::Left => {
                        if self.army[i].x > 0 {
                            self.army[i].x -= 1;
                        }
                    },
                    Direction::Right => {
                        if self.army[i].x + 1 < NUM_COLS {
                            self.army[i].x += 1;
                        }
                    },
                }
            }
            i += 1;
        }
        assert(self.army@ =~= marched(old(self).army@, old(self).direction));
    }

    /// Lets `delta` pass and says whether the army took a step. It takes one
    /// when its timer, run down by `delta`, is done; the timer then starts
    /// again. Without a step nothing but the timer changes; a step is one
    /// `advance`.
    pub fn update(&mut self, delta: Duration) -> (moved: bool)
        requires
            old(self).wf(),
        ensures
            final(self).wf(),
            moved == clock(old(self).move_timer).tick(duration_nanos(delta)).done,
            clock(final(self).move_timer) == if moved {
                clock(old(self).move_timer).tick(duration_nanos(delta)).reset()
            } else {
                clock(old(self).move_timer).tick(duration_nanos(delta))
            },
            !moved ==> final(self).army@ == old(self).army@ && final(self).direction == old(
                self,
            ).direction,
            moved ==> final(self).army@ == marched(old(self).army@, old(self).direction)
                && final(self).direction == turn(old(self).direction, old(self).army@).0,
    {
        timer_tick(&mut self.move_timer, delta);
        if !timer_finished(&self.move_timer) {
            return false;
        }
        timer_reset(&mut self.move_timer);
        self.advance();
        true
    }

    /// Whether no invader is left: the round is won.
    pub fn all_dead(&self) -> (b: bool)
        ensures
            b == (self.army@.len() == 0),
    {
        self.army.len() == 0
    }

    /// Whether some invader stands in the last row or below: the round is
    /// lost.
    pub fn reached_bottom(&self) -> (b: bool)
        ensures
            b == exists|i: int|
                0 <= i < self.army.len() && (#[trigger] self.army[i]).y >= NUM_ROWS - 1,
    {
        let mut i: usize = 0;
        while i < self.army.len()
            invariant
                i <= self.army.len(),
                forall|j: int| 0 <= j < i ==> (#[trigger] self.army[j]).y < NUM_ROWS - 1,
            decreases self.army.len() - i,
        {
            if self.army[i].y >= NUM_ROWS - 1 {
                return true;
            }
            i += 1;
        }
        false
    }

    /// Removes the first invader that stands in column `x`, row `y`, and says
    /// whether there was one. The others keep their order.
    pub fn kill_at(&mut self, x: usize, y: usize) -> (hit: bool)
        ensures
            final(self).direction == old(self).direction,
            final(self).move_timer == old(self).move_timer,
            old(self).wf() ==> final(self).wf(),
            hit ==> exists|i: int|
                is_first_at(old(self).army@, x, y, i) && final(self).army@ == old(
                    self,
                ).army@.remove(i),
            !hit ==> none_at(old(self).army@, x, y) && final(self).army@ == old(self).army@,
    {
        let mut i: usize = 0;
        while i < self.army.len()
            invariant
                i <= self.army.len(),
                *self == *old(self),
                forall|j: int|
                    0 <= j < i ==> !((#[trigger] self.army[j]).x == x && self.army[j].y == y),
            decreases self.army.len() - i,
        {
            if self.army[i].x == x && self.army[i].y == y {
                assert(is_first_at(old(self).army@, x, y, i as int));
                self.army.remove(i);
                return true;
            }
            i += 1;
        }
        false
    }

    /// Draws every invader as `glyph`.
    pub fn draw(&self, frame: &mut Frame, glyph: char)
        requires
            self.wf(),
            frame_wf(old(frame)@),
        ensures
            frame_wf(final(frame)@),
            cells(final(frame)@) == painted(cells(old(frame)@), self.army@, glyph),
    {
        let mut i: usize = 0;
        while i < self.army.len()
            invariant
                i <= self.army.len(),
                self.wf(),
                frame_wf(frame@),
                cells(frame@) == painted(cells(old(frame)@), self.army@.take(i as int), glyph),
            decreases self.army.len() - i,
        {
            proof {
                assert(self.army@.take(i + 1).drop_last() =~= self.army@.take(i as int));
            }
            set_cell(frame, self.army[i].x, self.army[i].y, glyph);
            i += 1;
        }
        assert(self.army@.take(i as int) =~= self.army@);
    }
}

} // verus!
