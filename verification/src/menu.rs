//! Menus: which screen is shown, and blocks of text laid out on the grid.

use crate::frame::{cells, frame_wf, put, set_cell, Frame};
use crate::{NUM_COLS, NUM_ROWS};
use vstd::prelude::*;
use vstd::string::StrSliceExecFns;

verus! {

/// The screen that the program shows.
#[derive(PartialEq, Eq, Clone, Copy, Debug, Structural)]
pub enum Menu {
    Main,
    Game,
    Help,
    Leaderboard,
}

/// Where the next character of a text goes.
pub struct Pen {
    /// Column of the next character on the current line.
    pub col: int,
    /// Row of the current line.
    pub row: int,
    /// Whether the character before was a line break.
    pub new_line: bool,
}

/// The cell in which a character is placed when the pen is `p`: after a line
/// break, the first column of the next row; else the pen's own cell.
pub open spec fn cell_of(p: Pen, x0: int) -> (int, int) {
    if p.new_line {
        (x0, p.row + 1)
    } else {
        (p.col, p.row)
    }
}

/// The pen after the character `c`. The character after a line break does
/// not move the column on, so the one that follows it lands on the same cell.
pub open spec fn pen_step(p: Pen, x0: int, c: char) -> Pen {
    if p.new_line {
        Pen { col: x0, row: p.row + 1, new_line: c == '\n' }
    } else {
        Pen { col: p.col + 1, row: p.row, new_line: c == '\n' }
    }
}

/// The pen after all of `text`, started at column `x0`, row `y0`.
pub open spec fn pen_after(x0: int, y0: int, text: Seq<char>) -> Pen
    decreases text.len(),
{
    if text.len() == 0 {
        Pen { col: x0, row: y0, new_line: false }
    } else {
        pen_step(pen_after(x0, y0, text.drop_last()), x0, text.last())
    }
}

/// Every character of `text` that is drawn falls inside the grid.
pub open spec fn fits(x0: int, y0: int, text: Seq<char>) -> bool {
    forall|k: int|
        0 <= k < text.len() && text[k] != '\n' ==> {
            let at = cell_of(#[trigger] pen_after(x0, y0, text.take(k)), x0);
            0 <= at.0 < NUM_COLS && 0 <= at.1 < NUM_ROWS
        }
}

/// The grid after `text` was drawn from column `x0`, row `y0`: each character
/// but the line break is written to its cell, in order.
pub open spec fn drawn(grid: Seq<Seq<char>>, x0: int, y0: int, text: Seq<char>) -> Seq<Seq<char>>
    decreases text.len(),
{
    if text.len() == 0 {
        grid
    } else {
        let before = drawn(grid, x0, y0, text.drop_last());
        if text.last() == '\n' {
            before
        } else {
            let at = cell_of(pen_after(x0, y0, text.drop_last()), x0);
            put(before, at.0, at.1, text.last())
        }
    }
}

proof fn lemma_pen_bounds(x0: int, y0: int, text: Seq<char>)
    ensures
        x0 <= pen_after(x0, y0, text).col <= x0 + text.len(),
        y0 <= pen_after(x0, y0, text).row <= y0 + text.len(),
    decreases text.len(),
{
    if text.len() > 0 {
        lemma_pen_bounds(x0, y0, text.drop_last());
    }
}

/// A block of text with the cell of its first character.
pub struct NewMenu {
    text: String,
    x: usize,
    y: usize,
}

impl NewMenu {
    /// The text.
    pub closed spec fn text(&self) -> Seq<char> {
        self.text@
    }

    /// Column and row of the first character.
    pub closed spec fn origin(&self) -> (int, int) {
        (self.x as int, self.y as int)
    }

    /// The block `text` with its first character in column `x`, row `y`.
    pub fn new(text: String, x: usize, y: usize) -> (m: Self)
        ensures
            m.text() == text@,
            m.origin() == (x as int, y as int),
    {
        Self { text, x, y }
    }

    /// Whether all of the text falls inside the grid. Only a text that does
    /// can be drawn.
    pub fn fits(&self) -> (ok: bool)
        ensures
            ok == (fits(self.origin().0, self.origin().1, self.text()) && self.origin().0
                + self.text().len() <= usize::MAX && self.origin().1 + self.text().len()
                <= usize::MAX),
    {
        let text = self.text.as_str();
        let n = text.unicode_len();
        if n > usize::MAX - self.x || n > usize::MAX - self.y {
            return false;
        }
        let ghost x0 = self.x as int;
        let ghost y0 = self.y as int;
        let mut new_line = false;
        let mut row: usize = self.y;
        let mut col: usize = self.x;
        let mut k: usize = 0;
        while k < n
            invariant
                k <= n,
                n == text@.len(),
                text@ == self.text@,
                x0 == self.x,
                y0 == self.y,
                x0 + n <= usize::MAX,
                y0 + n <= usize::MAX,
                pen_after(x0, y0, text@.take(k as int)) == (Pen {
                    col: col as int,
                    row: row as int,
                    new_line,
                }),
                forall|j: int|
                    0 <= j < k && text@[j] != '\n' ==> {
                        let at = cell_of(#[trigger] pen_after(x0, y0, text@.take(j)), x0);
                        0 <= at.0 < NUM_COLS && 0 <= at.1 < NUM_ROWS
                    },
            decreases n - k,
        {
            let c = text.get_char(k);
            proof {
                lemma_pen_bounds(x0, y0, text@.take(k as int));
                assert(text@.take(k + 1).drop_last() =~= text@.take(k as int));
            }
            let (x, y) = if new_line {
                (self.x, row + 1)
            } else {
                (col, row)
            };
            if c != '\n' && (x >= NUM_COLS || y >= NUM_ROWS) {
                return false;
            }
            if new_line {
                row = row + 1;
                col = self.x;
            } else {
                col = col + 1;
            }
            new_line = c == '\n';
            k += 1;
        }
        true
    }

    /// Draws the text into the grid. Characters run to the right from the
    /// origin; a line break moves to the origin's column in the next row.
    pub fn draw(&self, frame: &mut Frame)
        requires
            frame_wf(old(frame)@),
            fits(self.origin().0, self.origin().1, self.text()),
            self.origin().0 + self.text().len() <= usize::MAX,
            self.origin().1 + self.text().len() <= usize::MAX,
        ensures
            frame_wf(final(frame)@),
            cells(final(frame)@) == drawn(
                cells(old(frame)@),
                self.origin().0,
                self.origin().1,
                self.text(),
            ),
    {
        let text = self.text.as_str();
        let n = text.unicode_len();
        let ghost x0 = self.x as int;
        let ghost y0 = self.y as int;
        let mut new_line = false;
        let mut row: usize = self.y;
        let mut col: usize = self.x;
        let mut k: usize = 0;
        while k < n
            invariant
                k <= n,
                n == text@.len(),
                text@ == self.text@,
                x0 == self.x,
                y0 == self.y,
                x0 + n <= usize::MAX,
                y0 + n <= usize::MAX,
                fits(x0, y0, text@),
                frame_wf(frame@),
                pen_after(x0, y0, text@.take(k as int)) == (Pen {
                    col: col as int,
                    row: row as int,
                    new_line,
                }),
                cells(frame@) == drawn(cells(old(frame)@), x0, y0, text@.take(k as int)),
            decreases n - k,
        {
            let c = text.get_char(k);
            proof {
                lemma_pen_bounds(x0, y0, text@.take(k as int));
                assert(text@.take(k + 1).drop_last() =~= text@.take(k as int));
            }
            let (x, y) = if new_line {
                (self.x, row + 1)
            } else {
                (col, row)
            };
            if c != '\n' {
                set_cell(frame, x, y, c);
            }
            if new_line {
                row = row + 1;
                col = self.x;
            } else {
                col = col + 1;
            }
            new_line = c == '\n';
            k += 1;
        }
        assert(text@.take(n as int) =~= text@);
    }
}

} // verus!
