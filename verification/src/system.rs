//! Program-wide state: the screen shown, the current player's record and the
//! table of high scores.

use crate::menu::Menu;
use vstd::prelude::*;

verus! {

/// One line of the score table.
#[derive(Debug)]
pub struct SystemPlayer {
    pub name: String,
    pub score: u32,
    /// The kind of record; always `"score"` for one made here.
    pub is: String,
}

impl SystemPlayer {
    /// A record for `name` with no points.
    pub fn new(name: String) -> (p: Self)
        ensures
            p.name@ == name@,
            p.score == 0,
            p.is@ == "score"@,
    {
        Self { name, score: 0, is: "score".to_owned() }
    }
}

/// The screen that `input` names, if it names one.
pub open spec fn menu_named(input: Seq<char>) -> Option<Menu> {
    if input == "Main"@ {
        Some(Menu::Main)
    } else if input == "Game"@ {
        Some(Menu::Game)
    } else if input == "Help"@ {
        Some(Menu::Help)
    } else if input == "Scores"@ {
        Some(Menu::Leaderboard)
    } else {
        None
    }
}

/// Program-wide state.
pub struct System {
    pub menu: Menu,
    pub player: SystemPlayer,
    pub high_scores: Vec<SystemPlayer>,
}

impl System {
    /// The state at start-up: the main menu, a nameless player without
    /// points, and an empty score table.
    pub fn new() -> (s: Self)
        ensures
            s.menu == Menu::Main,
            s.player.name@ == "new player"@,
            s.player.score == 0,
            s.player.is@ == "score"@,
            s.high_scores@.len() == 0,
    {
        Self {
            menu: Menu::Main,
            player: SystemPlayer::new("new player".to_owned()),
            high_scores: Vec::new(),
        }
    }

    /// Replaces the score table by `data`.
    pub fn set_high_scores(&mut self, data: Vec<SystemPlayer>)
        ensures
            final(self).high_scores == data,
            final(self).menu == old(self).menu,
            final(self).player == old(self).player,
    {
        self.high_scores = data;
    }

    /// Switches to the screen that `input` names, letter for letter. Any
    /// other input is refused and changes nothing.
    pub fn select_menu(&mut self, input: &str) -> (known: bool)
        ensures
            known == menu_named(input@).is_some(),
            final(self).menu == match menu_named(input@) {
                Some(m) => m,
                None => old(self).menu,
            },
            final(self).player == old(self).player,
            final(self).high_scores == old(self).high_scores,
    {
        let line = input.to_owned();
        if line == "Main".to_owned() {
            self.menu = Menu::Main;
            true
        } else if line == "Game".to_owned() {
            self.menu = Menu::Game;
            true
        } else if line == "Help".to_owned() {
            self.menu = Menu::Help;
            true
        } else if line == "Scores".to_owned() {
            self.menu = Menu::Leaderboard;
            true
        } else {
            false
        }
    }
}

} // verus!
