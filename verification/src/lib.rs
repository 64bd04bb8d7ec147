//! Terminal arcade shooter core: the sound-effect dispatch service (a clip
//! registry, a fixed pool of playback workers and the dispatcher that routes
//! requests to them) together with the game pieces that surround it.

use vstd::prelude::*;

pub mod audio;
pub mod frame;
pub mod invaders;
pub mod menu;
pub mod player;
pub mod registry;
pub mod service;
pub mod shot;
pub mod system;
mod text;
pub mod timer;
pub mod worker;

verus! {

/// Number of rows of the playing field.
pub const NUM_ROWS: usize = 20;

/// Number of columns of the playing field.
pub const NUM_COLS: usize = 40;

/// Rows strictly below this one (and above row zero) are seeded with invaders.
pub const INVADER_MULTIPLIER: u32 = 9;

/// Greatest number of shots that a player may have in flight.
pub const SHOT_COUNT: usize = 6;

/// Horizontal direction in which the army marches.
#[derive(PartialEq, Eq, Clone, Copy, Debug, Structural)]
pub enum Direction {
    Left,
    Right,
}

impl Direction {
    /// Column offset of one step in this direction.
    pub open spec fn spec_offset(self) -> int {
        match self {
            Direction::Left => -1,
            Direction::Right => 1,
        }
    }

    /// Column offset of one step in this direction: -1 to the left, 1 to the right.
    pub fn offset(&self) -> (d: i32)
        ensures
            d == self.spec_offset(),
    {
        match self {
            Direction::Left => -1,
            Direction::Right => 1,
        }
    }
}

} // verus!
