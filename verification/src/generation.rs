//! One frame of the simulation: the board, how large a cell is drawn, and
//! how many steps have been taken.

use crate::grid::{all_dead, cleared, dead_grid, has_shape, Grid, DEFAULT_COLS, DEFAULT_ROWS};
use vstd::prelude::*;

verus! {

/// The drawing size of a cell that a new generation starts with.
pub const DEFAULT_CELL_SIZE: u8 = 10;

/// A single frame of the universe and the count of generations so far.
#[derive(Clone, Debug)]
pub struct Generation {
    pub cell_size: u8,
    pub map: Grid,
    pub gen_count: usize,
}

impl Generation {
    /// The starting frame: the default board, all dead, drawn at the default
    /// cell size, with no step taken.
    pub fn new() -> (generation: Self)
        ensures
            generation.cell_size == DEFAULT_CELL_SIZE,
            generation.gen_count == 0,
            generation.map@ == dead_grid(DEFAULT_ROWS as nat, DEFAULT_COLS as nat),
    {
        Generation { cell_size: DEFAULT_CELL_SIZE, map: Grid::default(), gen_count: 0 }
    }

    /// Kills every cell and sets the count back to zero. The board keeps its
    /// dimensions and the cell size stays.
    pub fn reset(&mut self)
        ensures
            final(self).map@ == cleared(old(self).map@),
            all_dead(final(self).map@),
            forall|rows: nat, cols: nat|
                has_shape(old(self).map@, rows, cols) ==> has_shape(final(self).map@, rows, cols),
            final(self).gen_count == 0,
            final(self).cell_size == old(self).cell_size,
    {
        self.map.clear();
        self.gen_count = 0;
    }
}

impl Default for Generation {
    /// The default board, all dead, with cell size and count both zero.
    fn default() -> (generation: Self)
        ensures
            generation.cell_size == 0,
            generation.gen_count == 0,
            generation.map@ == dead_grid(DEFAULT_ROWS as nat, DEFAULT_COLS as nat),
    {
        Generation { cell_size: 0, map: Grid::default(), gen_count: 0 }
    }
}

} // verus!
