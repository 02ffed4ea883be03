//! Conway's rule, B3/S23, on a bounded board.
//!
//! The board does not wrap around and nothing lives beyond its edges: a
//! position outside the board is simply not alive.

use crate::grid::{all_dead, has_shape, Grid};
use vstd::prelude::*;

verus! {

/// Whether position `r`, `c` lies on the board `g` and holds a live cell.
pub open spec fn alive(g: Seq<Seq<bool>>, r: int, c: int) -> bool {
    0 <= r < g.len() && 0 <= c < g[r].len() && g[r][c]
}

/// One for a live cell, zero for a dead one.
pub open spec fn tally(live: bool) -> nat {
    if live {
        1
    } else {
        0
    }
}

/// The number of live cells among the eight positions around `r`, `c`.
pub open spec fn live_neighbors(g: Seq<Seq<bool>>, r: int, c: int) -> nat {
    tally(alive(g, r - 1, c - 1)) + tally(alive(g, r - 1, c)) + tally(alive(g, r - 1, c + 1))
        + tally(alive(g, r, c - 1)) + tally(alive(g, r, c + 1))
        + tally(alive(g, r + 1, c - 1)) + tally(alive(g, r + 1, c)) + tally(alive(g, r + 1, c + 1))
}

/// The rule itself: a live cell stays alive with two or three live
/// neighbours, a dead cell comes alive with exactly three.
pub open spec fn lives_on(live: bool, neighbors: nat) -> bool {
    if live {
        neighbors == 2 || neighbors == 3
    } else {
        neighbors == 3
    }
}

/// The state of the cell at `r`, `c` one generation after `g`.
pub open spec fn next_cell(g: Seq<Seq<bool>>, r: int, c: int) -> bool {
    lives_on(g[r][c], live_neighbors(g, r, c))
}

/// The board one generation after `g`: same rows, same row lengths, every
/// cell decided from `g` alone.
pub open spec fn next_generation(g: Seq<Seq<bool>>) -> Seq<Seq<bool>> {
    Seq::new(g.len(), |r: int| Seq::new(g[r].len(), |c: int| next_cell(g, r, c)))
}

/// The board `g` with a border of dead cells, one cell wide, around it.
pub open spec fn with_dead_border(g: Seq<Seq<bool>>, rows: nat, cols: nat) -> Seq<Seq<bool>> {
    Seq::new(rows + 2, |r: int| Seq::new(cols + 2, |c: int| alive(g, r - 1, c - 1)))
}

/// The four cases of the rule: birth, survival, death by under- or
/// overpopulation, and a dead cell staying dead.
pub proof fn rule_cases(live: bool, neighbors: nat)
    ensures
        !live && neighbors == 3 ==> lives_on(live, neighbors),
        live && (neighbors == 2 || neighbors == 3) ==> lives_on(live, neighbors),
        live && (neighbors < 2 || neighbors > 3) ==> !lives_on(live, neighbors),
        !live && neighbors != 3 ==> !lives_on(live, neighbors),
{
}

/// A cell never has more than eight live neighbours.
pub proof fn at_most_eight_neighbors(g: Seq<Seq<bool>>, r: int, c: int)
    ensures
        live_neighbors(g, r, c) <= 8,
{
}

/// The next generation has the shape of the one before it.
pub proof fn next_generation_keeps_shape(g: Seq<Seq<bool>>, rows: nat, cols: nat)
    requires
        has_shape(g, rows, cols),
    ensures
        has_shape(next_generation(g), rows, cols),
{
}

/// Positions beyond the edge never count: a cell on the board has exactly the
/// live neighbours that it has on the same board surrounded by dead cells.
pub proof fn edges_count_nothing_outside(g: Seq<Seq<bool>>, rows: nat, cols: nat, r: int, c: int)
    requires
        has_shape(g, rows, cols),
        0 <= r < rows,
        0 <= c < cols,
    ensures
        live_neighbors(g, r, c) == live_neighbors(with_dead_border(g, rows, cols), r + 1, c + 1),
{
    let b = with_dead_border(g, rows, cols);
    assert forall|i: int, j: int| r <= i <= r + 2 && c <= j <= c + 2 implies alive(b, i, j)
        == alive(g, i - 1, j - 1) by {
        assert(b[i].len() == cols + 2);
        assert(b[i][j] == alive(g, i - 1, j - 1));
    }
}

/// A single live cell on an otherwise dead board dies, and nothing is born:
/// the next generation is all dead, wherever the cell stands and whatever
/// the board's dimensions.
pub proof fn lone_cell_dies(g: Seq<Seq<bool>>, rows: nat, cols: nat, r0: int, c0: int)
    requires
        has_shape(g, rows, cols),
        0 <= r0 < rows,
        0 <= c0 < cols,
        g[r0][c0],
        forall|r: int, c: int|
            0 <= r < rows && 0 <= c < cols && (r != r0 || c != c0) ==> !(#[trigger] g[r][c]),
    ensures
        all_dead(next_generation(g)),
{
    let next = next_generation(g);
    assert forall|r: int, c: int| 0 <= r < next.len() && 0 <= c < next[r].len() implies !(
    #[trigger] next[r][c]) by {
        assert(next[r][c] == next_cell(g, r, c));
        assert(live_neighbors(g, r, c) <= 1);
        assert(r == r0 && c == c0 ==> live_neighbors(g, r, c) == 0);
    }
}

/// The state that a cell takes in the next generation, given its state and
/// the number of its live neighbours.
pub fn next_state(live: bool, neighbors: u8) -> (next: bool)
    ensures
        next == lives_on(live, neighbors as nat),
{
    if neighbors < 2 && live {
        false
    } else if (neighbors == 2 || neighbors == 3) && live {
        true
    } else if neighbors > 3 && live {
        false
    } else {
        !live && neighbors == 3
    }
}

/// Whether the position one step from `row`, `col` in the direction `dr`,
/// `dc` lies on the board and is alive. A direction is 0 for one back, 1 for
/// none and 2 for one forward.
fn neighbor_alive(grid: &Grid, row: usize, col: usize, dr: u8, dc: u8) -> (live: bool)
    requires
        dr < 3,
        dc < 3,
    ensures
        live == alive(grid@, row + dr - 1, col + dc - 1),
{
    let rows = grid.cells.len();
    if (dr == 0 && row == 0) || (dr == 2 && row == usize::MAX) {
        return false;
    }
    let r: usize = if dr == 0 {
        row - 1
    } else if dr == 1 {
        row
    } else {
        row + 1
    };
    if r >= rows {
        return false;
    }
    let cols = grid.cells[r].len();
    if (dc == 0 && col == 0) || (dc == 2 && col == usize::MAX) {
        return false;
    }
    let c: usize = if dc == 0 {
        col - 1
    } else if dc == 1 {
        col
    } else {
        col + 1
    };
    c < cols && grid.cells[r][c]
}

/// Counts the live cells around `row`, `col`, looking only at positions on
/// the board.
pub fn count_live_neighbors(grid: &Grid, row: usize, col: usize) -> (n: u8)
    ensures
        n == live_neighbors(grid@, row as int, col as int),
{
    let mut n: u8 = 0;
    let mut dr: u8 = 0;
    while dr < 3
        invariant
            dr <= 3,
            n <= 3 * dr,
            n == neighbors_in_rows(grid@, row as int, col as int, dr as int),
        decreases 3 - dr,
    {
        let mut dc: u8 = 0;
        while dc < 3
            invariant
                dr < 3,
                dc <= 3,
                n <= 3 * dr + dc,
                n == neighbors_in_rows(grid@, row as int, col as int, dr as int)
                    + neighbors_in_row(grid@, row as int, col as int, dr as int, dc as int),
            decreases 3 - dc,
        {
            if !(dr == 1 && dc == 1) && neighbor_alive(grid, row, col, dr, dc) {
                n += 1;
            }
            dc += 1;
        }
        dr += 1;
    }
    proof {
        neighbors_by_rows(grid@, row as int, col as int);
    }
    n
}

/// Computes the generation after `current` into `scratch`, a board of the
/// same shape. `current` is only read: no cell of the new generation is
/// decided from another cell of the new generation.
pub fn evolve(current: &Grid, scratch: &mut Grid, rows: usize, cols: usize)
    requires
        has_shape(current@, rows as nat, cols as nat),
        has_shape(old(scratch)@, rows as nat, cols as nat),
    ensures
        final(scratch)@ == next_generation(current@),
        has_shape(final(scratch)@, rows as nat, cols as nat),
{
    let mut r: usize = 0;
    while r < rows
        invariant
            r <= rows,
            has_shape(current@, rows as nat, cols as nat),
            has_shape(scratch@, rows as nat, cols as nat),
            forall|i: int, j: int|
                0 <= i < r && 0 <= j < cols ==> (#[trigger] scratch@[i][j]) == next_cell(
                    current@,
                    i,
                    j,
                ),
        decreases rows - r,
    {
        let mut c: usize = 0;
        while c < cols
            invariant
                r < rows,
                c <= cols,
                has_shape(current@, rows as nat, cols as nat),
                has_shape(scratch@, rows as nat, cols as nat),
                forall|i: int, j: int|
                    0 <= i < r && 0 <= j < cols ==> (#[trigger] scratch@[i][j]) == next_cell(
                        current@,
                        i,
                        j,
                    ),
                forall|j: int|
                    0 <= j < c ==> (#[trigger] scratch@[r as int][j]) == next_cell(
                        current@,
                        r as int,
                        j,
                    ),
            decreases cols - c,
        {
            let neighbors = count_live_neighbors(current, r, c);
            let live = current.get(r, c);
            scratch.set(r, c, next_state(live, neighbors));
            c += 1;
        }
        r += 1;
    }
    assert(scratch@ =~~= next_generation(current@));
}

/// The live neighbours of `r`, `c` in the row at direction `dr`, among the
/// first `dc` directions across; the cell itself is not its own neighbour.
spec fn neighbors_in_row(g: Seq<Seq<bool>>, r: int, c: int, dr: int, dc: int) -> nat
    decreases dc,
{
    if dc <= 0 {
        0
    } else {
        neighbors_in_row(g, r, c, dr, dc - 1) + tally(
            !(dr == 1 && dc == 2) && alive(g, r + dr - 1, c + dc - 2),
        )
    }
}

/// The live neighbours of `r`, `c` in the rows at the first `dr` directions.
spec fn neighbors_in_rows(g: Seq<Seq<bool>>, r: int, c: int, dr: int) -> nat
    decreases dr,
{
    if dr <= 0 {
        0
    } else {
        neighbors_in_rows(g, r, c, dr - 1) + neighbors_in_row(g, r, c, dr - 1, 3)
    }
}

/// Taken row by row, the neighbours are the eight positions around the cell.
proof fn neighbors_by_rows(g: Seq<Seq<bool>>, r: int, c: int)
    ensures
        neighbors_in_rows(g, r, c, 3) == live_neighbors(g, r, c),
{
    reveal_with_fuel(neighbors_in_rows, 4);
    reveal_with_fuel(neighbors_in_row, 4);
}

} // verus!
