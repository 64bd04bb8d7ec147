//! The character grid that the game draws into, column by column.

use crate::{NUM_COLS, NUM_ROWS};
use vstd::prelude::*;

verus! {

/// A grid of cells, indexed by column and then by row.
pub type Frame = Vec<Vec<char>>;

/// The grid has the playing field's columns and rows.
pub open spec fn frame_wf(frame: Seq<Vec<char>>) -> bool {
    &&& frame.len() == NUM_COLS
    &&& forall|x: int| 0 <= x < frame.len() ==> (#[trigger] frame[x]).len() == NUM_ROWS
}

/// The cells of a grid as a mathematical value.
pub open spec fn cells(frame: Seq<Vec<char>>) -> Seq<Seq<char>> {
    Seq::new(frame.len(), |x: int| frame[x]@)
}

/// The grid `grid` with the cell in column `x`, row `y` set to `c`.
pub open spec fn put(grid: Seq<Seq<char>>, x: int, y: int, c: char) -> Seq<Seq<char>> {
    grid.update(x, grid[x].update(y, c))
}

/// A grid of the playing field's size with a blank in every cell.
pub fn new_frame() -> (frame: Frame)
    ensures
        frame_wf(frame@),
        forall|x: int, y: int|
            0 <= x < NUM_COLS && 0 <= y < NUM_ROWS ==> (#[trigger] frame[x][y]) == ' ',
{
    let mut frame: Vec<Vec<char>> = Vec::new();
    let mut x: usize = 0;
    while x < NUM_COLS
        invariant
            x <= NUM_COLS,
            frame.len() == x,
            forall|i: int| 0 <= i < x ==> (#[trigger] frame[i]).len() == NUM_ROWS,
            forall|i: int, j: int| 0 <= i < x && 0 <= j < NUM_ROWS ==> (#[trigger] frame[i][j]) == ' ',
        decreases NUM_COLS - x,
    {
        let mut col: Vec<char> = Vec::new();
        let mut y: usize = 0;
        while y < NUM_ROWS
            invariant
                y <= NUM_ROWS,
                col.len() == y,
                forall|j: int| 0 <= j < y ==> col[j] == ' ',
            decreases NUM_ROWS - y,
        {
            col.push(' ');
            y += 1;
        }
        frame.push(col);
        x += 1;
    }
    frame
}

/// Checks that the grid has the playing field's columns and rows.
pub fn frame_ok(frame: &Frame) -> (ok: bool)
    ensures
        ok == frame_wf(frame@),
{
    if frame.len() != NUM_COLS {
        return false;
    }
    let mut x: usize = 0;
    while x < frame.len()
        invariant
            x <= frame.len(),
            frame.len() == NUM_COLS,
            forall|i: int| 0 <= i < x ==> (#[trigger] frame[i]).len() == NUM_ROWS,
        decreases frame.len() - x,
    {
        if frame[x].len() != NUM_ROWS {
            return false;
        }
        x += 1;
    }
    true
}

/// Writes `c` into column `x`, row `y`. No other cell changes.
pub fn set_cell(frame: &mut Frame, x: usize, y: usize, c: char)
    requires
        frame_wf(old(frame)@),
        x < NUM_COLS,
        y < NUM_ROWS,
    ensures
        frame_wf(final(frame)@),
        cells(final(frame)@) == put(cells(old(frame)@), x as int, y as int, c),
{
    frame[x][y] = c;
    assert(cells(frame@) =~= put(cells(old(frame)@), x as int, y as int, c));
}

} // verus!
