//! Countdown timers, kept by the `rusty_time` crate.
//!
//! A timer is driven from outside: it runs down by the time that its owner
//! reports and says when it has reached zero. What a timer holds is named
//! here, and each call states what it does to that; none of it is proved.

use rusty_time::Timer;
use std::time::Duration;
use vstd::prelude::*;

verus! {

/// `rusty_time::Timer`, carried as an opaque value.
#[verifier::external_type_specification]
#[verifier::external_body]
pub struct ExTimer(rusty_time::Timer);

/// The time that is left on a timer, in nanoseconds.
pub uninterp spec fn timer_left(t: Timer) -> nat;

/// The time that a timer starts from, in nanoseconds.
pub uninterp spec fn timer_span(t: Timer) -> nat;

/// Whether a timer has been seen to reach zero.
pub uninterp spec fn timer_done(t: Timer) -> bool;

/// The length of a span of time, in nanoseconds.
pub uninterp spec fn duration_nanos(d: Duration) -> nat;

/// What a timer holds.
pub struct Clock {
    /// Nanoseconds left.
    pub left: nat,
    /// Nanoseconds it starts from.
    pub span: nat,
    /// Whether it has been seen to reach zero.
    pub done: bool,
}

/// What the timer `t` holds.
pub open spec fn clock(t: Timer) -> Clock {
    Clock { left: timer_left(t), span: timer_span(t), done: timer_done(t) }
}

impl Clock {
    /// A fresh timer of `ms` milliseconds.
    pub open spec fn start(ms: u64) -> Clock {
        Clock { left: ms as nat * 1_000_000, span: ms as nat * 1_000_000, done: false }
    }

    /// The timer after `nanos` nanoseconds passed: one that is done stays as
    /// it is; another runs down, not below zero, and is done at zero.
    pub open spec fn tick(self, nanos: nat) -> Clock {
        if self.done {
            self
        } else if self.left <= nanos {
            Clock { left: 0, span: self.span, done: true }
        } else {
            Clock { left: (self.left - nanos) as nat, span: self.span, done: false }
        }
    }

    /// The timer started again from its full time. It is not done, except in
    /// one corner: a timer of no time at all that had time left.
    pub open spec fn reset(self) -> Clock {
        Clock { left: self.span, span: self.span, done: self.span == 0 && self.left != 0 }
    }
}

/// Calls `rusty_time::Timer::new` with a duration of `ms` milliseconds: the
/// new timer has all of that time left and is not done.
#[verifier::external_body]
pub(crate) fn timer_from_millis(ms: u64) -> (t: Timer)
    ensures
        timer_left(t) == Clock::start(ms).left,
        timer_span(t) == Clock::start(ms).span,
        timer_done(t) == Clock::start(ms).done,
{
    Timer::new(Duration::from_millis(ms))
}

/// Calls `rusty_time::Timer::tick`: a timer that is not done loses `delta`
/// of its time, stopping at zero, where it becomes done.
#[verifier::external_body]
pub(crate) fn timer_tick(t: &mut Timer, delta: Duration)
    ensures
        clock(*final(t)) == clock(*old(t)).tick(duration_nanos(delta)),
{
    t.tick(delta);
}

/// Calls `rusty_time::Timer::finished`, which reads whether the timer is
/// done.
#[verifier::external_body]
pub(crate) fn timer_finished(t: &Timer) -> (ready: bool)
    ensures
        ready == timer_done(*t),
{
    t.finished()
}

/// Calls `rusty_time::Timer::reset`: the timer has its full time again.
#[verifier::external_body]
pub(crate) fn timer_reset(t: &mut Timer)
    ensures
        clock(*final(t)) == clock(*old(t)).reset(),
{
    t.reset();
}

} // verus!
