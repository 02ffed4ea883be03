//! The simulation engine.
//!
//! A `Universe` is bound to a generation that it shares with a reader, and
//! owns a scratch board of its own. A step is computed from a frozen copy of
//! the current generation into the scratch board and only then published, so
//! that no cell of the new generation is ever decided from another cell of
//! the new generation.
//!
//! Every operation comes in two layers. The methods that take or return a
//! `Generation` work on a frame that the caller holds exclusively, and their
//! contracts are exact. The methods without one read the shared frame, hand
//! it to the first layer and publish the result; of the shared frame they can
//! promise nothing, since any holder of the handle may have written to it.

use crate::generation::Generation;
use crate::grid::{all_dead, cleared, dead_grid, has_shape, Grid, DEFAULT_COLS, DEFAULT_ROWS};
use crate::rules::{evolve, next_generation};
use crate::seed::randomize;
use crate::shared::{load, store};
use parking_lot::RwLock;
use std::sync::Arc;
use vstd::prelude::*;

verus! {

/// The pattern to use to compute generations.
#[derive(Clone, Copy, Debug, PartialEq, Eq, Structural)]
pub enum Ruleset {
    /// Conway's rule: birth on three neighbours, survival on two or three.
    Life,
}

impl Ruleset {
    /// The rule in birth/survival notation.
    pub fn notation(&self) -> (text: String)
        ensures
            text@ == "B3/S23"@,
    {
        match self {
            Ruleset::Life => "B3/S23".to_owned(),
        }
    }
}

impl Default for Ruleset {
    fn default() -> (ruleset: Self)
        ensures
            ruleset == Ruleset::Life,
    {
        Ruleset::Life
    }
}

/// What is known about a pattern besides its cells.
#[derive(Clone, Debug)]
pub struct Metadata {
    pub author: Option<String>,
    pub name: Option<String>,
    pub comments: Vec<String>,
    pub ruleset: Ruleset,
}

impl Metadata {
    /// No author, no name, no comment, Conway's rule.
    pub open spec fn is_blank(&self) -> bool {
        &&& self.author is None
        &&& self.name is None
        &&& self.comments@.len() == 0
        &&& self.ruleset == Ruleset::Life
    }
}

impl Default for Metadata {
    fn default() -> (metadata: Self)
        ensures
            metadata.is_blank(),
    {
        Metadata { author: None, name: None, comments: Vec::new(), ruleset: Ruleset::Life }
    }
}

/// The Game of Life universe: the shared generation and what is needed to
/// advance it.
pub struct Universe {
    /// Handle to the state of the universe, shared with its readers.
    pub generation: Arc<RwLock<Generation>>,
    /// Board on which the next generation is computed before it is published.
    pub switchmap: Grid,
    /// The number of rows of the board.
    pub rows: usize,
    /// The number of columns of the board.
    pub cols: usize,
    /// Various metadata about the universe.
    pub metadata: Metadata,
}

impl Universe {
    /// The scratch board has the dimensions that `rows` and `cols` give.
    pub open spec fn wf(&self) -> bool {
        has_shape(self.switchmap@, self.rows as nat, self.cols as nat)
    }

    /// Whether `advance` can take this frame: the universe is well formed,
    /// the frame's board has the universe's dimensions, and its count can
    /// still grow.
    pub open spec fn can_advance(&self, generation: &Generation) -> bool {
        &&& self.wf()
        &&& has_shape(generation.map@, self.rows as nat, self.cols as nat)
        &&& generation.gen_count < usize::MAX
    }

    /// Binds a universe to the shared generation, with a scratch board of the
    /// default dimensions, and seeds the shared board at random.
    pub fn new(generation: Arc<RwLock<Generation>>) -> (universe: Self)
        ensures
            universe.generation == generation,
            universe.rows == DEFAULT_ROWS,
            universe.cols == DEFAULT_COLS,
            universe.metadata.is_blank(),
            universe.wf(),
            universe.switchmap@ == dead_grid(DEFAULT_ROWS as nat, DEFAULT_COLS as nat),
    {
        let mut universe = Universe {
            generation,
            switchmap: Grid::default(),
            rows: DEFAULT_ROWS,
            cols: DEFAULT_COLS,
            metadata: Metadata::default(),
        };
        universe.randomize();
        universe
    }

    /// Clears a frame held exclusively, and the scratch board with it: every
    /// cell dead, the count back at zero, dimensions and cell size as before.
    /// Nothing is seeded.
    pub fn clear_frame(&mut self, generation: &mut Generation)
        ensures
            final(generation).map@ == cleared(old(generation).map@),
            all_dead(final(generation).map@),
            final(generation).gen_count == 0,
            final(generation).cell_size == old(generation).cell_size,
            forall|rows: nat, cols: nat|
                has_shape(old(generation).map@, rows, cols) ==> has_shape(
                    final(generation).map@,
                    rows,
                    cols,
                ),
            final(self).switchmap@ == cleared(old(self).switchmap@),
            old(self).wf() ==> final(self).wf(),
            final(self).rows == old(self).rows,
            final(self).cols == old(self).cols,
            final(self).generation == old(self).generation,
            final(self).metadata == old(self).metadata,
    {
        generation.reset();
        self.switchmap.clear();
    }

    /// Clears the shared universe: the frame read is cleared with
    /// `clear_frame` and published in one write.
    pub fn clear(&mut self)
        ensures
            final(self).switchmap@ == cleared(old(self).switchmap@),
            old(self).wf() ==> final(self).wf(),
            final(self).rows == old(self).rows,
            final(self).cols == old(self).cols,
            final(self).generation == old(self).generation,
            final(self).metadata == old(self).metadata,
    {
        let mut current = load(&self.generation);
        self.clear_frame(&mut current);
        store(&self.generation, current);
    }

    /// Tests at run time whether `advance` can take this frame.
    pub fn accepts(&self, generation: &Generation) -> (accepted: bool)
        ensures
            accepted == self.can_advance(generation),
    {
        self.switchmap.is_shaped(self.rows, self.cols) && generation.map.is_shaped(
            self.rows,
            self.cols,
        ) && generation.gen_count < usize::MAX
    }

    /// Advances a frame held exclusively by one generation.
    ///
    /// The next board is computed into the scratch board from the frame's
    /// board, which is not written during that pass, and then copied back
    /// cell by cell. The count grows by exactly one, whether or not a cell
    /// changed.
    pub fn advance(&mut self, generation: &mut Generation)
        requires
            old(self).can_advance(old(generation)),
        ensures
            final(generation).map@ == next_generation(old(generation).map@),
            final(generation).gen_count == old(generation).gen_count + 1,
            final(generation).cell_size == old(generation).cell_size,
            has_shape(final(generation).map@, old(self).rows as nat, old(self).cols as nat),
            final(self).switchmap@ == next_generation(old(generation).map@),
            final(self).wf(),
            final(self).rows == old(self).rows,
            final(self).cols == old(self).cols,
            final(self).generation == old(self).generation,
            final(self).metadata == old(self).metadata,
    {
        evolve(&generation.map, &mut self.switchmap, self.rows, self.cols);
        generation.map.copy_from(&self.switchmap, self.rows, self.cols);
        generation.gen_count = generation.gen_count + 1;
    }

    /// Computes a generation of the shared universe.
    ///
    /// Reads the shared frame, advances the copy and publishes it in one
    /// write. Returns whether it did: where the frame read cannot be advanced
    /// (`can_advance`), nothing is written and the result is `false`.
    pub fn advance_generation(&mut self) -> (advanced: bool)
        ensures
            advanced ==> final(self).wf(),
            !advanced ==> *final(self) == *old(self),
            final(self).rows == old(self).rows,
            final(self).cols == old(self).cols,
            final(self).generation == old(self).generation,
            final(self).metadata == old(self).metadata,
    {
        let mut current = load(&self.generation);
        if self.accepts(&current) {
            self.advance(&mut current);
            store(&self.generation, current);
            true
        } else {
            false
        }
    }

    /// Gives the universe new dimensions and returns the frame that goes with
    /// them: a board of `rows` by `columns` cells seeded at random, drawn at
    /// `cell_size`, with the count at zero. Nothing of an earlier board is
    /// carried over. The scratch board is rebuilt, all dead, to the same
    /// dimensions.
    pub fn rebuild(&mut self, columns: usize, rows: usize, cell_size: u8) -> (generation:
        Generation)
        ensures
            has_shape(generation.map@, rows as nat, columns as nat),
            generation.gen_count == 0,
            generation.cell_size == cell_size,
            final(self).rows == rows,
            final(self).cols == columns,
            final(self).switchmap@ == dead_grid(rows as nat, columns as nat),
            final(self).wf(),
            final(self).can_advance(&generation),
            final(self).generation == old(self).generation,
            final(self).metadata == old(self).metadata,
    {
        self.cols = columns;
        self.rows = rows;
        let mut map = Grid::new(rows, columns);
        randomize(&mut map);
        self.switchmap = Grid::new(rows, columns);
        Generation { cell_size, map, gen_count: 0 }
    }

    /// Resizes the shared universe and seeds it anew: the frame that
    /// `rebuild` returns is published in one write.
    pub fn resize(&mut self, columns: usize, rows: usize, cell_size: u8)
        ensures
            final(self).rows == rows,
            final(self).cols == columns,
            final(self).switchmap@ == dead_grid(rows as nat, columns as nat),
            final(self).wf(),
            final(self).generation == old(self).generation,
            final(self).metadata == old(self).metadata,
    {
        let fresh = self.rebuild(columns, rows, cell_size);
        store(&self.generation, fresh);
    }

    /// Takes a board with its metadata and dimensions for the universe and
    /// returns the frame that goes with them: the board as it is, drawn at
    /// `cell_size`, with the count at zero. The scratch board is rebuilt, all
    /// dead, to the new dimensions. Nothing is seeded.
    pub fn adopt(
        &mut self,
        metadata: Metadata,
        rows: usize,
        cols: usize,
        cells: Grid,
        cell_size: u8,
    ) -> (generation: Generation)
        requires
            has_shape(cells@, rows as nat, cols as nat),
        ensures
            generation.map == cells,
            generation.gen_count == 0,
            generation.cell_size == cell_size,
            final(self).rows == rows,
            final(self).cols == cols,
            final(self).metadata == metadata,
            final(self).switchmap@ == dead_grid(rows as nat, cols as nat),
            final(self).wf(),
            final(self).can_advance(&generation),
            final(self).generation == old(self).generation,
    {
        self.rows = rows;
        self.cols = cols;
        self.metadata = metadata;
        self.switchmap = Grid::new(rows, cols);
        Generation { cell_size, map: cells, gen_count: 0 }
    }

    /// Puts a board with its metadata in place of the shared one: the frame
    /// that `adopt` returns, at the cell size of the frame read, is published
    /// in one write.
    ///
    /// Returns whether it did: a board that has not the dimensions handed in
    /// is refused, and nothing is touched.
    pub fn install(&mut self, metadata: Metadata, rows: usize, cols: usize, cells: Grid) -> (installed:
        bool)
        ensures
            installed == has_shape(cells@, rows as nat, cols as nat),
            installed ==> final(self).rows == rows,
            installed ==> final(self).cols == cols,
            installed ==> final(self).metadata == metadata,
            installed ==> final(self).wf(),
            installed ==> final(self).switchmap@ == dead_grid(rows as nat, cols as nat),
            !installed ==> *final(self) == *old(self),
            final(self).generation == old(self).generation,
    {
        if !cells.is_shaped(rows, cols) {
            return false;
        }
        let current = load(&self.generation);
        let fresh = self.adopt(metadata, rows, cols, cells, current.cell_size);
        store(&self.generation, fresh);
        true
    }

    /// Populates the shared board with random live cells. Count, cell size
    /// and dimensions stay as they are.
    fn randomize(&mut self)
        ensures
            *final(self) == *old(self),
    {
        let mut current = load(&self.generation);
        randomize(&mut current.map);
        store(&self.generation, current);
    }
}

} // verus!
