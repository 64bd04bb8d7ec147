//! A shot fired by the player: it climbs one row whenever its timer runs out,
//! and lingers for a moment once it has hit something.

use crate::frame::{cells, frame_wf, put, set_cell, Frame};
use crate::timer::{
    clock, duration_nanos, timer_done, timer_finished, timer_from_millis, timer_reset, timer_tick,
    Clock,
};
use crate::{NUM_COLS, NUM_ROWS};
use rusty_time::Timer;
use std::time::Duration;
use vstd::prelude::*;

verus! {

/// A shot in flight or exploding.
pub struct Shot {
    pub x: usize,
    pub y: usize,
    pub exploding: bool,
    pub timer: Timer,
}

impl Shot {
    /// The row of a shot in row `y` after a timer answer of `ready`: a shot in
    /// flight climbs one row when its timer has run out, and stops at row 0.
    pub open spec fn climbed(y: usize, exploding: bool, ready: bool) -> usize {
        if ready && !exploding && y > 0 {
            (y - 1) as usize
        } else {
            y
        }
    }

    /// Whether the shot is spent: its explosion is over, or it has reached
    /// row 0.
    pub open spec fn spec_dead(&self) -> bool {
        (self.exploding && timer_done(self.timer)) || self.y == 0
    }

    /// Shot `after` is this shot once `nanos` nanoseconds have passed: the
    /// timer has run down by them; a shot in flight whose timer ran out has
    /// climbed one row, not above row 0, and started its timer again.
    pub open spec fn aged(&self, after: Shot, nanos: nat) -> bool {
        let ticked = clock(self.timer).tick(nanos);
        &&& after.x == self.x
        &&& after.exploding == self.exploding
        &&& after.y == Self::climbed(self.y, self.exploding, ticked.done)
        &&& clock(after.timer) == if ticked.done && !self.exploding {
            ticked.reset()
        } else {
            ticked
        }
    }

    /// A shot in flight at column `x`, row `y`, which climbs every 50
    /// milliseconds.
    pub fn new(x: usize, y: usize) -> (s: Self)
        ensures
            s.x == x,
            s.y == y,
            !s.exploding,
            clock(s.timer) == Clock::start(50),
    {
        Self { x, y, exploding: false, timer: timer_from_millis(50) }
    }

    /// Moves the shot for a timer answer of `ready` and says whether the
    /// timer is to start again: it is when the shot is in flight and the
    /// timer has run out.
    pub fn climb(&mut self, ready: bool) -> (restart: bool)
        ensures
            restart == (ready && !old(self).exploding),
            final(self).y == Self::climbed(old(self).y, old(self).exploding, ready),
            final(self).x == old(self).x,
            final(self).exploding == old(self).exploding,
            final(self).timer == old(self).timer,
    {
        if ready && !self.exploding {
            if self.y > 0 {
                self.y -= 1;
            }
            true
        } else {
            false
        }
    }

    /// Lets `delta` pass: the timer runs down, and a shot in flight whose
    /// timer ran out climbs one row and starts its timer again.
    pub fn update(&mut self, delta: Duration)
        ensures
            old(self).aged(*final(self), duration_nanos(delta)),
    {
        timer_tick(&mut self.timer, delta);
        let ready = timer_finished(&self.timer);
        if self.climb(ready) {
            timer_reset(&mut self.timer);
        }
    }

    /// Starts the explosion, which lasts 250 milliseconds. The shot stays in
    /// its cell.
    pub fn explode(&mut self)
        ensures
            final(self).exploding,
            final(self).x == old(self).x,
            final(self).y == old(self).y,
            clock(final(self).timer) == Clock::start(250),
    {
        self.exploding = true;
        self.timer = timer_from_millis(250);
    }

    /// Whether the shot is spent, for a timer answer of `ready`: its
    /// explosion is over, or it has reached row 0.
    pub fn dead_when(&self, ready: bool) -> (d: bool)
        ensures
            d == ((self.exploding && ready) || self.y == 0),
    {
        (self.exploding && ready) || self.y == 0
    }

    /// Whether the shot is spent.
    pub fn dead(&self) -> (d: bool)
        ensures
            d == self.spec_dead(),
    {
        let ready = timer_finished(&self.timer);
        self.dead_when(ready)
    }

    /// The character that shows the shot.
    pub open spec fn glyph(&self) -> char {
        if self.exploding {
            '*'
        } else {
            '|'
        }
    }

    /// Draws the shot into its cell.
    pub fn draw(&self, frame: &mut Frame)
        requires
            frame_wf(old(frame)@),
            self.x < NUM_COLS,
            self.y < NUM_ROWS,
        ensures
            frame_wf(final(frame)@),
            cells(final(frame)@) == put(
                cells(old(frame)@),
                self.x as int,
                self.y as int,
                self.glyph(),
            ),
    {
        let c = if self.exploding {
            '*'
        } else {
            '|'
        };
        set_cell(frame, self.x, self.y, c);
    }
}

} // verus!
