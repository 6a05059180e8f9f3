//! A player that steps from cell to cell on a bounded grid.

use vstd::prelude::*;

verus! {

/// Edge length of one grid cell, in pixels.
pub const GRID_SIZE: i32 = 20;

/// Number of cells in a row of the grid.
pub const GRID_WIDTH: i32 = 30;

/// Number of cells in a column of the grid.
pub const GRID_HEIGHT: i32 = 20;

/// Whether the cell `(x, y)` lies on the grid.
pub open spec fn on_grid(x: int, y: int) -> bool {
    0 <= x < GRID_WIDTH && 0 <= y < GRID_HEIGHT
}

/// The cell a player stands on.
#[derive(Debug, Clone, Copy, PartialEq, Eq, Structural)]
pub struct GridPlayer {
    pub grid_x: i32,
    pub grid_y: i32,
}

impl GridPlayer {
    /// A player on the cell in the middle of the grid.
    pub fn new() -> (player: GridPlayer)
        ensures
            player.grid_x == GRID_WIDTH / 2,
            player.grid_y == GRID_HEIGHT / 2,
            on_grid(player.grid_x as int, player.grid_y as int),
    {
        GridPlayer { grid_x: GRID_WIDTH / 2, grid_y: GRID_HEIGHT / 2 }
    }

    /// Steps by `(dx, dy)` if that leads to a cell of the grid, and stays
    /// otherwise.
    pub fn move_direction(&mut self, dx: i32, dy: i32)
        ensures
            on_grid(old(self).grid_x + dx, old(self).grid_y + dy) ==> final(self).grid_x
                == old(self).grid_x + dx && final(self).grid_y == old(self).grid_y + dy,
            !on_grid(old(self).grid_x + dx, old(self).grid_y + dy) ==> *final(self) == *old(self),
    {
        let new_x: i64 = self.grid_x as i64 + dx as i64;
        let new_y: i64 = self.grid_y as i64 + dy as i64;
        if new_x >= 0 && new_x < GRID_WIDTH as i64 && new_y >= 0 && new_y < GRID_HEIGHT as i64 {
            self.grid_x = new_x as i32;
            self.grid_y = new_y as i32;
        }
    }

    /// The pixel position of the corner of the player's cell.
    pub fn cell_origin(&self) -> (origin: (i64, i64))
        ensures
            origin.0 == self.grid_x * GRID_SIZE,
            origin.1 == self.grid_y * GRID_SIZE,
    {
        (self.grid_x as i64 * 20, self.grid_y as i64 * 20)
    }
}

} // verus!
