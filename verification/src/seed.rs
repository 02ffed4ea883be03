//! Random seeding of a board: every cell alive with one chance in three.

use crate::grid::Grid;
use vstd::prelude::*;

verus! {

/// Number of equally likely outcomes of one draw.
pub const DRAW_OUTCOMES: u8 = 3;

/// The one outcome of a draw that makes a cell alive.
pub const LIVE_DRAW: u8 = 1;

/// Whether a draw makes its cell alive.
pub open spec fn draw_gives_life(draw: u8) -> bool {
    draw == LIVE_DRAW
}

/// The rows of `after` are as many and as long as those of `before`.
pub open spec fn same_shape(before: Seq<Seq<bool>>, after: Seq<Seq<bool>>) -> bool {
    &&& after.len() == before.len()
    &&& forall|r: int| 0 <= r < before.len() ==> (#[trigger] after[r]).len() == before[r].len()
}

/// One draw from `rand`'s thread-local generator: `Rng::gen_range` over the
/// range from 0 up to, not including, `bound`. `gen_range` panics on an empty
/// range, so the bound must not be zero. All that is claimed is what
/// `gen_range` documents of every outcome: the value lies in the range.
#[verifier::external_body]
fn draw_below(bound: u8) -> (outcome: u8)
    requires
        bound > 0,
    ensures
        outcome < bound,
{
    rand::Rng::gen_range(&mut rand::thread_rng(), 0..bound)
}

/// Whether a cell that drew `draw` is alive.
pub fn is_live_draw(draw: u8) -> (live: bool)
    ensures
        live == draw_gives_life(draw),
{
    draw == LIVE_DRAW
}

/// Populates the board with random live cells: a fresh draw for every cell,
/// alive where the draw gives life. The board keeps its rows and each row its
/// length, whatever is drawn.
pub fn randomize(grid: &mut Grid)
    ensures
        same_shape(old(grid)@, final(grid)@),
{
    let rows = grid.cells.len();
    let mut r: usize = 0;
    while r < rows
        invariant
            r <= rows,
            rows == old(grid)@.len(),
            same_shape(old(grid)@, grid@),
        decreases rows - r,
    {
        let cols = grid.cells[r].len();
        assert(grid@[r as int].len() == cols);
        let mut c: usize = 0;
        while c < cols
            invariant
                r < rows,
                c <= cols,
                rows == old(grid)@.len(),
                cols == grid@[r as int].len(),
                same_shape(old(grid)@, grid@),
            decreases cols - c,
        {
            let live = is_live_draw(draw_below(DRAW_OUTCOMES));
            grid.set(r, c, live);
            c += 1;
        }
        r += 1;
    }
}

} // verus!
