//! The player's ship: where it stands, the shots it has in flight, and the
//! points it has made.

use crate::frame::{cells, frame_wf, put, set_cell, Frame};
use crate::invaders::{is_first_at, none_at, Invader, Invaders};
use crate::shot::Shot;
use crate::text::{string_pop, string_push};
use crate::timer::{clock, duration_nanos, Clock};
use crate::{NUM_COLS, NUM_ROWS, SHOT_COUNT};
use std::time::Duration;
use vstd::prelude::*;

verus! {

/// The army after a shot's cell was checked: the first invader that stands
/// in column `x`, row `y` is gone, if there was one.
pub open spec fn killed(army: Seq<Invader>, x: usize, y: usize) -> Seq<Invader> {
    if exists|i: int| is_first_at(army, x, y, i) {
        army.remove(choose|i: int| is_first_at(army, x, y, i))
    } else {
        army
    }
}

/// The army after the cells of the first `n` shots were checked, in order.
pub open spec fn swept(army: Seq<Invader>, shots: Seq<Shot>, n: int) -> Seq<Invader>
    decreases n,
{
    if n <= 0 {
        army
    } else {
        killed(swept(army, shots, n - 1), shots[n - 1].x, shots[n - 1].y)
    }
}

/// Shot `k` scores: when its turn comes an invader stands in its cell, and
/// the shot is not exploding yet.
pub open spec fn scores(army: Seq<Invader>, shots: Seq<Shot>, k: int) -> bool {
    !none_at(swept(army, shots, k), shots[k].x, shots[k].y) && !shots[k].exploding
}

/// Each shot of `after` is the shot of `before` in its place once `nanos`
/// nanoseconds have passed.
pub open spec fn all_aged(before: Seq<Shot>, after: Seq<Shot>, nanos: nat) -> bool {
    &&& after.len() == before.len()
    &&& forall|i: int| 0 <= i < before.len() ==> (#[trigger] before[i]).aged(after[i], nanos)
}

/// The shots of `shots` that are not spent, in their order.
pub open spec fn kept(shots: Seq<Shot>) -> Seq<Shot>
    decreases shots.len(),
{
    if shots.len() == 0 {
        shots
    } else if shots.last().spec_dead() {
        kept(shots.drop_last())
    } else {
        kept(shots.drop_last()).push(shots.last())
    }
}

/// The grid with every shot of `shots` drawn, in order.
pub open spec fn with_shots(grid: Seq<Seq<char>>, shots: Seq<Shot>) -> Seq<Seq<char>>
    decreases shots.len(),
{
    if shots.len() == 0 {
        grid
    } else {
        put(
            with_shots(grid, shots.drop_last()),
            shots.last().x as int,
            shots.last().y as int,
            shots.last().glyph(),
        )
    }
}

proof fn lemma_killed(army: Seq<Invader>, x: usize, y: usize, i: int)
    requires
        is_first_at(army, x, y, i),
    ensures
        killed(army, x, y) == army.remove(i),
        !none_at(army, x, y),
{
    let k = choose|k: int| is_first_at(army, x, y, k);
    if k < i {
        assert(!(army[k].x == x && army[k].y == y));
    } else if i < k {
        assert(!(army[i].x == x && army[i].y == y));
    }
}

proof fn lemma_not_killed(army: Seq<Invader>, x: usize, y: usize)
    requires
        none_at(army, x, y),
    ensures
        killed(army, x, y) == army,
{
    if exists|i: int| is_first_at(army, x, y, i) {
        let k = choose|k: int| is_first_at(army, x, y, k);
        assert(!(army[k].x == x && army[k].y == y));
    }
}

/// A key pressed while the player's name is asked for.
#[derive(PartialEq, Eq, Clone, Copy, Debug, Structural)]
pub enum NameKey {
    Esc,
    Backspace,
    Enter,
    Char(char),
    Other,
}

/// What a key did to the name that is being typed.
#[derive(PartialEq, Eq, Clone, Copy, Debug, Structural)]
pub enum NameStep {
    /// The player gave up; the name stays as far as it was typed.
    Cancelled,
    /// The player confirmed the name.
    Accepted,
    /// The last character was taken off.
    Erased,
    /// This character was added.
    Typed(char),
    /// The key has no meaning here.
    Ignored,
}

/// Whether `c` may stand in a name: a visible character with a code from 33
/// up to, but not including, 176.
pub open spec fn name_char(c: char) -> bool {
    33 <= c as u32 && (c as u32) < 176
}

/// What `key` does to a name that reads `name` so far.
pub open spec fn name_step(name: Seq<char>, key: NameKey) -> (NameStep, Seq<char>) {
    match key {
        NameKey::Esc => (NameStep::Cancelled, name),
        NameKey::Enter => (NameStep::Accepted, name),
        NameKey::Backspace => if name.len() > 0 {
            (NameStep::Erased, name.drop_last())
        } else {
            (NameStep::Ignored, name)
        },
        NameKey::Char(c) => if name_char(c) {
            (NameStep::Typed(c), name.push(c))
        } else {
            (NameStep::Ignored, name)
        },
        NameKey::Other => (NameStep::Ignored, name),
    }
}

/// The player's ship.
pub struct Player {
    pub x: usize,
    pub y: usize,
    pub shots: Vec<Shot>,
    pub name: String,
    pub score: u32,
    pub level: u128,
}

impl Player {
    /// The ship stands inside the grid, below row 0, and so does every shot.
    pub open spec fn wf(&self) -> bool {
        &&& self.x < NUM_COLS
        &&& 1 <= self.y < NUM_ROWS
        &&& forall|i: int|
            0 <= i < self.shots.len() ==> (#[trigger] self.shots[i]).x < NUM_COLS
                && self.shots[i].y < NUM_ROWS
    }

    /// Checks that the ship and every shot stand where they may.
    pub fn in_grid(&self) -> (ok: bool)
        ensures
            ok == self.wf(),
    {
        if self.x >= NUM_COLS || self.y < 1 || self.y >= NUM_ROWS {
            return false;
        }
        let mut i: usize = 0;
        while i < self.shots.len()
            invariant
                i <= self.shots.len(),
                forall|j: int|
                    0 <= j < i ==> (#[trigger] self.shots[j]).x < NUM_COLS && self.shots[j].y
                        < NUM_ROWS,
            decreases self.shots.len() - i,
        {
            if self.shots[i].x >= NUM_COLS || self.shots[i].y >= NUM_ROWS {
                return false;
            }
            i += 1;
        }
        true
    }

    /// A nameless player on level 1 without points or shots, in the middle
    /// of the last row.
    pub fn new() -> (p: Self)
        ensures
            p.wf(),
            p.x == NUM_COLS / 2,
            p.y == NUM_ROWS - 1,
            p.shots@.len() == 0,
            p.name@.len() == 0,
            p.score == 0,
            p.level == 1,
    {
        Self {
            x: NUM_COLS / 2,
            y: NUM_ROWS - 1,
            shots: Vec::new(),
            name: String::new(),
            score: 0,
            level: 1,
        }
    }

    /// One column to the left, unless the ship is in column 0.
    pub fn move_left(&mut self)
        ensures
            final(self).x == if old(self).x > 0 {
                (old(self).x - 1) as usize
            } else {
                old(self).x
            },
            *final(self) == (Player { x: final(self).x, ..*old(self) }),
    {
        if self.x > 0 {
            self.x -= 1;
        }
    }

    /// One column to the right, unless the ship is in the last column or
    /// beyond.
    pub fn move_right(&mut self)
        ensures
            final(self).x == if old(self).x < NUM_COLS - 1 {
                (old(self).x + 1) as usize
            } else {
                old(self).x
            },
            *final(self) == (Player { x: final(self).x, ..*old(self) }),
    {
        if self.x < NUM_COLS - 1 {
            self.x += 1;
        }
    }

    /// Fires a shot from the cell above the ship, if fewer than `SHOT_COUNT`
    /// are in flight, and says whether it did. The new shot comes last.
    pub fn shoot(&mut self) -> (fired: bool)
        requires
            old(self).y >= 1,
        ensures
            fired == (old(self).shots.len() < SHOT_COUNT),
            !fired ==> *final(self) == *old(self),
            fired ==> {
                &&& final(self).shots@.len() == old(self).shots@.len() + 1
                &&& final(self).shots@.drop_last() == old(self).shots@
                &&& final(self).shots@.last().x == old(self).x
                &&& final(self).shots@.last().y == old(self).y - 1
                &&& !final(self).shots@.last().exploding
                &&& clock(final(self).shots@.last().timer) == Clock::start(50)
            },
            final(self).x == old(self).x,
            final(self).y == old(self).y,
            final(self).name == old(self).name,
            final(self).score == old(self).score,
            final(self).level == old(self).level,
            old(self).wf() ==> final(self).wf(),
    {
        if self.shots.len() < SHOT_COUNT {
            self.shots.push(Shot::new(self.x, self.y - 1));
            assert(self.shots@.drop_last() =~= old(self).shots@);
            return true;
        }
        false
    }

    /// Lets `delta` pass for every shot, then drops the shots that are spent.
    /// The shots that stay keep their order. The ship is untouched.
    pub fn update(&mut self, delta: Duration)
        ensures
            final(self).x == old(self).x,
            final(self).y == old(self).y,
            final(self).name == old(self).name,
            final(self).score == old(self).score,
            final(self).level == old(self).level,
            final(self).shots.len() <= old(self).shots.len(),
            exists|aged: Seq<Shot>| #[trigger]
                all_aged(old(self).shots@, aged, duration_nanos(delta)) && final(self).shots@
                    == kept(aged),
            old(self).wf() ==> final(self).wf(),
    {
        let n = self.shots.len();
        let mut i: usize = 0;
        while i < n
            invariant
                i <= n,
                n == self.shots.len(),
                n == old(self).shots.len(),
                self.x == old(self).x,
                self.y == old(self).y,
                self.name == old(self).name,
                self.score == old(self).score,
                self.level == old(self).level,
                forall|j: int|
                    0 <= j < i ==> (#[trigger] old(self).shots[j]).aged(
                        self.shots[j],
                        duration_nanos(delta),
                    ),
                forall|j: int| i <= j < n ==> (#[trigger] self.shots[j]) == old(self).shots[j],
            decreases n - i,
        {
            self.shots[i].update(delta);
            i += 1;
        }
        let ghost aged = self.shots@;
        assert(all_aged(old(self).shots@, aged, duration_nanos(delta)));
        assert(old(self).wf() ==> forall|j: int|
            0 <= j < n ==> (#[trigger] aged[j]).x < NUM_COLS && aged[j].y < NUM_ROWS) by {
            if old(self).wf() {
                assert forall|j: int| 0 <= j < n implies (#[trigger] aged[j]).x < NUM_COLS
                    && aged[j].y < NUM_ROWS by {
                    assert(old(self).shots[j].aged(aged[j], duration_nanos(delta)));
                }
            }
        }
        let mut keep: Vec<Shot> = Vec::new();
        let mut k: usize = 0;
        while self.shots.len() > 0
            invariant
                k <= n,
                n == aged.len(),
                self.shots@ == aged.skip(k as int),
                keep@ == kept(aged.take(k as int)),
                keep.len() <= k,
                self.x == old(self).x,
                self.y == old(self).y,
                self.name == old(self).name,
                self.score == old(self).score,
                self.level == old(self).level,
                old(self).wf() ==> forall|j: int|
                    0 <= j < n ==> (#[trigger] aged[j]).x < NUM_COLS && aged[j].y < NUM_ROWS,
                old(self).wf() ==> forall|j: int|
                    0 <= j < keep.len() ==> (#[trigger] keep[j]).x < NUM_COLS && keep[j].y
                        < NUM_ROWS,
            decreases self.shots.len(),
        {
            let shot = self.shots.remove(0);
            proof {
                assert(shot == aged[k as int]);
                assert(self.shots@ =~= aged.skip(k + 1));
                assert(aged.take(k + 1).drop_last() =~= aged.take(k as int));
                assert(aged.take(k + 1).last() == shot);
            }
            if !shot.dead() {
                keep.push(shot);
            }
            k += 1;
        }
        assert(aged.take(k as int) =~= aged);
        self.shots = keep;
    }

    /// Checks the shots in order against the army. A shot in whose cell an
    /// invader stands removes that invader; the first such shot that is not
    /// exploding yet starts to explode and scores a point, and the check ends
    /// there. Says whether a shot scored.
    pub fn detect_hits(&mut self, invaders: &mut Invaders) -> (hit: bool)
        requires
            old(self).score < u32::MAX,
        ensures
            final(self).x == old(self).x,
            final(self).y == old(self).y,
            final(self).name == old(self).name,
            final(self).level == old(self).level,
            final(self).shots.len() == old(self).shots.len(),
            final(invaders).direction == old(invaders).direction,
            final(invaders).move_timer == old(invaders).move_timer,
            old(self).wf() ==> final(self).wf(),
            old(invaders).wf() ==> final(invaders).wf(),
            !hit ==> {
                &&& forall|k: int|
                    0 <= k < old(self).shots.len() ==> !scores(
                        old(invaders).army@,
                        old(self).shots@,
                        k,
                    )
                &&& final(invaders).army@ == swept(
                    old(invaders).army@,
                    old(self).shots@,
                    old(self).shots.len() as int,
                )
                &&& final(self).shots@ == old(self).shots@
                &&& final(self).score == old(self).score
            },
            hit ==> exists|k: int|
                {
                    &&& 0 <= k < old(self).shots.len()
                    &&& scores(old(invaders).army@, old(self).shots@, k)
                    &&& forall|j: int|
                        0 <= j < k ==> !scores(old(invaders).army@, old(self).shots@, j)
                    &&& final(invaders).army@ == swept(
                        old(invaders).army@,
                        old(self).shots@,
                        k + 1,
                    )
                    &&& final(self).shots[k].exploding
                    &&& clock(final(self).shots[k].timer) == Clock::start(250)
                    &&& final(self).shots[k].x == old(self).shots[k].x
                    &&& final(self).shots[k].y == old(self).shots[k].y
                    &&& forall|j: int|
                        0 <= j < old(self).shots.len() && j != k ==> final(self).shots[j] == old(
                            self,
                        ).shots[j]
                    &&& final(self).score == old(self).score + 1
                },
    {
        let n = self.shots.len();
        let mut i: usize = 0;
        while i < n
            invariant
                i <= n,
                *self == *old(self),
                self.score < u32::MAX,
                n == self.shots.len(),
                invaders.direction == old(invaders).direction,
                invaders.move_timer == old(invaders).move_timer,
                old(invaders).wf() ==> invaders.wf(),
                invaders.army@ == swept(old(invaders).army@, old(self).shots@, i as int),
                forall|k: int| 0 <= k < i ==> !scores(old(invaders).army@, old(self).shots@, k),
            decreases n - i,
        {
            let ghost before = invaders.army@;
            let x = self.shots[i].x;
            let y = self.shots[i].y;
            let struck = invaders.kill_at(x, y);
            proof {
                if struck {
                    let at = choose|at: int|
                        is_first_at(before, x, y, at) && invaders.army@ == before.remove(at);
                    lemma_killed(before, x, y, at);
                } else {
                    lemma_not_killed(before, x, y);
                }
                assert(invaders.army@ == swept(old(invaders).army@, old(self).shots@, i + 1));
            }
            if struck && !self.shots[i].exploding {
                self.shots[i].explode();
                self.score += 1;
                assert(scores(old(invaders).army@, old(self).shots@, i as int));
                return true;
            }
            i += 1;
        }
        false
    }

    /// Applies one key to the name that is being typed: a character that may
    /// stand in a name is added, backspace takes the last one off, and the
    /// keys that end the entry leave the name as it is.
    pub fn name_key(&mut self, key: NameKey) -> (step: NameStep)
        ensures
            (step, final(self).name@) == name_step(old(self).name@, key),
            final(self).x == old(self).x,
            final(self).y == old(self).y,
            final(self).shots == old(self).shots,
            final(self).score == old(self).score,
            final(self).level == old(self).level,
    {
        match key {
            NameKey::Esc => NameStep::Cancelled,
            NameKey::Enter => NameStep::Accepted,
            NameKey::Backspace => match string_pop(&mut self.name) {
                Some(_) => NameStep::Erased,
                None => NameStep::Ignored,
            },
            NameKey::Char(c) => {
                if 33 <= c as u32 && (c as u32) < 176 {
                    string_push(&mut self.name, c);
                    NameStep::Typed(c)
                } else {
                    NameStep::Ignored
                }
            },
            NameKey::Other => NameStep::Ignored,
        }
    }

    /// Drops every shot. The ship is untouched.
    pub fn clear_shots(&mut self)
        ensures
            *final(self) == (Player { shots: final(self).shots, ..*old(self) }),
            final(self).shots@.len() == 0,
    {
        self.shots.clear();
    }

    /// Draws the ship as `A`, then every shot in order.
    pub fn draw(&self, frame: &mut Frame)
        requires
            self.wf(),
            frame_wf(old(frame)@),
        ensures
            frame_wf(final(frame)@),
            cells(final(frame)@) == with_shots(
                put(cells(old(frame)@), self.x as int, self.y as int, 'A'),
                self.shots@,
            ),
    {
        set_cell(frame, self.x, self.y, 'A');
        let ghost base = cells(frame@);
        let mut i: usize = 0;
        while i < self.shots.len()
            invariant
                i <= self.shots.len(),
                self.wf(),
                frame_wf(frame@),
                cells(frame@) == with_shots(base, self.shots@.take(i as int)),
            decreases self.shots.len() - i,
        {
            proof {
                assert(self.shots@.take(i + 1).drop_last() =~= self.shots@.take(i as int));
            }
            self.shots[i].draw(frame);
            i += 1;
        }
        assert(self.shots@.take(i as int) =~= self.shots@);
    }
}

} // verus!
