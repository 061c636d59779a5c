//! The picture of one frame: a grid of glyph bytes, computed from the game
//! state alone. Writing it to the terminal is left to the caller.

use vstd::prelude::*;

use crate::game::{GameState, Pos, SCREEN_HEIGHT, SCREEN_WIDTH};

verus! {

/// Glyph of a border cell.
pub const BORDER_GLYPH: u8 = 35;

/// Glyph of a cell the snake occupies.
pub const SNAKE_GLYPH: u8 = 79;

/// Glyph of the food cell.
pub const FOOD_GLYPH: u8 = 42;

/// Glyph of an empty cell.
pub const EMPTY_GLYPH: u8 = 32;

impl GameState {
    /// The glyph drawn at row `r`, column `c`: the border ring first, then
    /// the snake, then the food, blank everywhere else.
    pub open spec fn cell_glyph(self, r: u16, c: u16) -> u8 {
        if r == 0 || r == SCREEN_HEIGHT - 1 || c == 0 || c == SCREEN_WIDTH - 1 {
            BORDER_GLYPH
        } else if self.snake@.contains(Pos { row: r, col: c }) {
            SNAKE_GLYPH
        } else if self.food == (Pos { row: r, col: c }) {
            FOOD_GLYPH
        } else {
            EMPTY_GLYPH
        }
    }

    /// One full redraw of the grid: a line of glyph bytes per grid row,
    /// each cell holding exactly its glyph.
    pub fn render_frame(&self) -> (rows: Vec<Vec<u8>>)
        ensures
            rows@.len() == SCREEN_HEIGHT,
            forall|r: int| 0 <= r < SCREEN_HEIGHT ==> rows@[r]@.len() == SCREEN_WIDTH,
            forall|r: u16, c: u16|
                r < SCREEN_HEIGHT && c < SCREEN_WIDTH ==> rows@[r as int]@[c as int]
                    == self.cell_glyph(r, c),
    {
        let mut rows: Vec<Vec<u8>> = Vec::new();
        let mut r: u16 = 0;
        while r < SCREEN_HEIGHT
            invariant
                r <= SCREEN_HEIGHT,
                rows@.len() == r,
                forall|i: int| 0 <= i < r ==> rows@[i]@.len() == SCREEN_WIDTH,
                forall|i: u16, c: u16|
                    i < r && c < SCREEN_WIDTH ==> rows@[i as int]@[c as int] == self.cell_glyph(
                        i,
                        c,
                    ),
            decreases SCREEN_HEIGHT - r,
        {
            let mut line: Vec<u8> = Vec::new();
            let mut c: u16 = 0;
            while c < SCREEN_WIDTH
                invariant
                    r < SCREEN_HEIGHT,
                    c <= SCREEN_WIDTH,
                    line@.len() == c,
                    forall|j: u16| j < c ==> line@[j as int] == self.cell_glyph(r, j),
                decreases SCREEN_WIDTH - c,
            {
                let glyph: u8 = if r == 0 || r == SCREEN_HEIGHT - 1 || c == 0 || c == SCREEN_WIDTH
                    - 1 {
                    BORDER_GLYPH
                } else if crate::game::snake_contains(&self.snake, Pos { row: r, col: c }) {
                    SNAKE_GLYPH
                } else if self.food == (Pos { row: r, col: c }) {
                    FOOD_GLYPH
                } else {
                    EMPTY_GLYPH
                };
                line.push(glyph);
                c = c + 1;
            }
            rows.push(line);
            r = r + 1;
        }
        rows
    }
}

} // verus!
