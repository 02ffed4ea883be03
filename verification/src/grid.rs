//! The board: a matrix of cells, each alive (`true`) or dead (`false`).
//!
//! A board is modelled as a sequence of rows, each row a sequence of cells.
//! All contracts speak of that model, reached through the view `grid@`.

use vstd::prelude::*;

verus! {

/// Number of rows of a board built by default.
pub const DEFAULT_ROWS: usize = 100;

/// Number of columns of a board built by default.
pub const DEFAULT_COLS: usize = 100;

/// A row of `cols` dead cells.
pub open spec fn dead_row(cols: nat) -> Seq<bool> {
    Seq::new(cols, |c: int| false)
}

/// A board of `rows` rows, each of `cols` dead cells.
pub open spec fn dead_grid(rows: nat, cols: nat) -> Seq<Seq<bool>> {
    Seq::new(rows, |r: int| dead_row(cols))
}

/// The board `g` has exactly `rows` rows and every one of them has `cols` cells.
pub open spec fn has_shape(g: Seq<Seq<bool>>, rows: nat, cols: nat) -> bool {
    &&& g.len() == rows
    &&& forall|r: int| 0 <= r < g.len() ==> (#[trigger] g[r]).len() == cols
}

/// The board `g` with every cell dead: as many rows, each as long as before.
pub open spec fn cleared(g: Seq<Seq<bool>>) -> Seq<Seq<bool>> {
    Seq::new(g.len(), |r: int| dead_row(g[r].len()))
}

/// No cell of `g` is alive.
pub open spec fn all_dead(g: Seq<Seq<bool>>) -> bool {
    forall|r: int, c: int| 0 <= r < g.len() && 0 <= c < g[r].len() ==> !(#[trigger] g[r][c])
}

/// Clearing a rectangular board gives the dead board of the same dimensions.
pub proof fn cleared_keeps_shape(g: Seq<Seq<bool>>, rows: nat, cols: nat)
    requires
        has_shape(g, rows, cols),
    ensures
        cleared(g) == dead_grid(rows, cols),
        has_shape(cleared(g), rows, cols),
        all_dead(cleared(g)),
{
    assert(cleared(g) =~= dead_grid(rows, cols));
}

/// The data structure holding the state of every cell.
#[derive(Clone, Debug)]
pub struct Grid {
    pub cells: Vec<Vec<bool>>,
}

impl View for Grid {
    type V = Seq<Seq<bool>>;

    open spec fn view(&self) -> Seq<Seq<bool>> {
        Seq::new(self.cells@.len(), |r: int| self.cells@[r]@)
    }
}

/// A freshly allocated row of `cols` dead cells.
fn new_row(cols: usize) -> (row: Vec<bool>)
    ensures
        row@ == dead_row(cols as nat),
{
    let mut row: Vec<bool> = Vec::new();
    let mut c: usize = 0;
    while c < cols
        invariant
            c <= cols,
            row@ == dead_row(c as nat),
        decreases cols - c,
    {
        row.push(false);
        c += 1;
        assert(row@ =~= dead_row(c as nat));
    }
    row
}

impl Grid {
    /// An all-dead board of `rows` rows and `cols` columns. Either may be zero.
    pub fn new(rows: usize, cols: usize) -> (grid: Self)
        ensures
            grid@ == dead_grid(rows as nat, cols as nat),
            has_shape(grid@, rows as nat, cols as nat),
    {
        let mut cells: Vec<Vec<bool>> = Vec::new();
        let mut r: usize = 0;
        while r < rows
            invariant
                r <= rows,
                cells@.len() == r,
                forall|i: int| 0 <= i < r ==> (#[trigger] cells@[i])@ == dead_row(cols as nat),
            decreases rows - r,
        {
            cells.push(new_row(cols));
            r += 1;
        }
        let grid = Grid { cells };
        assert(grid@ =~= dead_grid(rows as nat, cols as nat));
        grid
    }

    /// Kills every cell. The board keeps its rows, and each row its length.
    pub fn clear(&mut self)
        ensures
            final(self)@ == cleared(old(self)@),
    {
        let rows = self.cells.len();
        let mut r: usize = 0;
        while r < rows
            invariant
                r <= rows,
                rows == old(self).cells@.len(),
                self.cells@.len() == rows,
                forall|i: int| 0 <= i < r ==> (#[trigger] self.cells@[i])@ == dead_row(old(self)@[i].len()),
                forall|i: int| r <= i < rows ==> (#[trigger] self.cells@[i]) == old(self).cells@[i],
            decreases rows - r,
        {
            let cols = self.cells[r].len();
            self.cells[r] = new_row(cols);
            r += 1;
        }
        assert(self@ =~= cleared(old(self)@));
    }

    /// The state of the cell at `row`, `col`.
    pub fn get(&self, row: usize, col: usize) -> (val: bool)
        requires
            row < self@.len(),
            col < self@[row as int].len(),
        ensures
            val == self@[row as int][col as int],
    {
        self.cells[row][col]
    }

    /// Overwrites the cell at `row`, `col`; every other cell stays as it was.
    pub fn set(&mut self, row: usize, col: usize, val: bool)
        requires
            row < old(self)@.len(),
            col < old(self)@[row as int].len(),
        ensures
            final(self)@ == old(self)@.update(
                row as int,
                old(self)@[row as int].update(col as int, val),
            ),
    {
        self.cells[row][col] = val;
        assert(self@ =~= old(self)@.update(
            row as int,
            old(self)@[row as int].update(col as int, val),
        ));
    }

    /// Copies `source` onto this board of the same shape, cell by cell.
    pub fn copy_from(&mut self, source: &Grid, rows: usize, cols: usize)
        requires
            has_shape(old(self)@, rows as nat, cols as nat),
            has_shape(source@, rows as nat, cols as nat),
        ensures
            final(self)@ == source@,
    {
        let mut r: usize = 0;
        while r < rows
            invariant
                r <= rows,
                has_shape(self@, rows as nat, cols as nat),
                has_shape(source@, rows as nat, cols as nat),
                forall|i: int| 0 <= i < r ==> (#[trigger] self@[i]) == source@[i],
            decreases rows - r,
        {
            let mut c: usize = 0;
            while c < cols
                invariant
                    r < rows,
                    c <= cols,
                    has_shape(self@, rows as nat, cols as nat),
                    has_shape(source@, rows as nat, cols as nat),
                    forall|i: int| 0 <= i < r ==> (#[trigger] self@[i]) == source@[i],
                    forall|j: int| 0 <= j < c ==> (#[trigger] self@[r as int][j]) == source@[r as int][j],
                decreases cols - c,
            {
                let state = source.get(r, c);
                self.set(r, c, state);
                c += 1;
            }
            assert(self@[r as int] =~= source@[r as int]);
            r += 1;
        }
        assert(self@ =~= source@);
    }

    /// Whether the board has exactly `rows` rows of `cols` cells each.
    pub fn is_shaped(&self, rows: usize, cols: usize) -> (shaped: bool)
        ensures
            shaped == has_shape(self@, rows as nat, cols as nat),
    {
        if self.cells.len() != rows {
            return false;
        }
        let mut r: usize = 0;
        while r < rows
            invariant
                r <= rows,
                self.cells@.len() == rows,
                forall|i: int| 0 <= i < r ==> (#[trigger] self@[i]).len() == cols,
            decreases rows - r,
        {
            if self.cells[r].len() != cols {
                assert(self@[r as int].len() != cols);
                return false;
            }
            r += 1;
        }
        true
    }
}

impl Default for Grid {
    /// The all-dead board of the default dimensions.
    fn default() -> (grid: Self)
        ensures
            grid@ == dead_grid(DEFAULT_ROWS as nat, DEFAULT_COLS as nat),
            has_shape(grid@, DEFAULT_ROWS as nat, DEFAULT_COLS as nat),
    {
        Grid::new(DEFAULT_ROWS, DEFAULT_COLS)
    }
}

} // verus!
