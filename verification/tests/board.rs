use game_of_life::generation::{Generation, DEFAULT_CELL_SIZE};
use game_of_life::grid::{Grid, DEFAULT_COLS, DEFAULT_ROWS};
use game_of_life::rules::{count_live_neighbors, evolve, next_state};
use game_of_life::seed::{is_live_draw, randomize};

fn live_cells(grid: &Grid) -> Vec<(usize, usize)> {
    let mut cells = Vec::new();
    for (r, row) in grid.cells.iter().enumerate() {
        for (c, &live) in row.iter().enumerate() {
            if live {
                cells.push((r, c));
            }
        }
    }
    cells
}

fn grid_with(rows: usize, cols: usize, live: &[(usize, usize)]) -> Grid {
    let mut grid = Grid::new(rows, cols);
    for &(r, c) in live {
        grid.set(r, c, true);
    }
    grid
}

#[test]
fn new_grid_is_all_dead_with_given_dimensions() {
    let grid = Grid::new(4, 7);
    assert_eq!(grid.cells.len(), 4);
    for row in &grid.cells {
        assert_eq!(row.len(), 7);
        assert!(row.iter().all(|&cell| !cell));
    }
    assert!(grid.is_shaped(4, 7));
    assert!(!grid.is_shaped(7, 4));
}

#[test]
fn new_grid_with_zero_dimensions_is_empty() {
    assert_eq!(Grid::new(0, 5).cells.len(), 0);
    let no_columns = Grid::new(3, 0);
    assert_eq!(no_columns.cells.len(), 3);
    assert!(no_columns.cells.iter().all(|row| row.is_empty()));
    assert!(Grid::new(0, 0).is_shaped(0, 0));
}

#[test]
fn default_grid_has_default_dimensions() {
    let grid = Grid::default();
    assert_eq!(DEFAULT_ROWS, 100);
    assert_eq!(DEFAULT_COLS, 100);
    assert!(grid.is_shaped(DEFAULT_ROWS, DEFAULT_COLS));
    assert!(live_cells(&grid).is_empty());
}

#[test]
fn set_changes_one_cell_and_get_reads_it() {
    let mut grid = Grid::new(3, 4);
    grid.set(2, 3, true);
    assert!(grid.get(2, 3));
    assert_eq!(live_cells(&grid), vec![(2, 3)]);
    grid.set(2, 3, false);
    assert!(!grid.get(2, 3));
    assert!(live_cells(&grid).is_empty());
}

#[test]
fn clear_kills_every_cell_and_keeps_dimensions() {
    let mut grid = grid_with(3, 5, &[(0, 0), (1, 4), (2, 2)]);
    grid.clear();
    assert!(grid.is_shaped(3, 5));
    assert!(live_cells(&grid).is_empty());
}

#[test]
fn clear_on_an_empty_grid_does_nothing() {
    let mut grid = Grid::new(0, 9);
    grid.clear();
    assert_eq!(grid.cells.len(), 0);
}

#[test]
fn copy_from_reproduces_the_source() {
    let source = grid_with(2, 3, &[(0, 1), (1, 2)]);
    let mut target = grid_with(2, 3, &[(0, 0)]);
    target.copy_from(&source, 2, 3);
    assert_eq!(target.cells, source.cells);
}

#[test]
fn new_generation_starts_at_defaults() {
    let generation = Generation::new();
    assert_eq!(DEFAULT_CELL_SIZE, 10);
    assert_eq!(generation.cell_size, 10);
    assert_eq!(generation.gen_count, 0);
    assert!(generation.map.is_shaped(100, 100));
    assert!(live_cells(&generation.map).is_empty());
}

#[test]
fn default_generation_has_zero_cell_size() {
    let generation = Generation::default();
    assert_eq!(generation.cell_size, 0);
    assert_eq!(generation.gen_count, 0);
    assert!(generation.map.is_shaped(100, 100));
}

#[test]
fn reset_clears_board_and_count_but_not_cell_size() {
    let mut generation = Generation::new();
    generation.cell_size = 7;
    generation.gen_count = 41;
    generation.map.set(5, 6, true);
    generation.reset();
    assert_eq!(generation.cell_size, 7);
    assert_eq!(generation.gen_count, 0);
    assert!(generation.map.is_shaped(100, 100));
    assert!(live_cells(&generation.map).is_empty());
}

#[test]
fn rule_gives_birth_on_exactly_three() {
    for n in 0..=8u8 {
        assert_eq!(next_state(false, n), n == 3);
    }
}

#[test]
fn rule_keeps_alive_on_two_or_three() {
    for n in 0..=8u8 {
        assert_eq!(next_state(true, n), n == 2 || n == 3);
    }
}

#[test]
fn neighbors_are_counted_on_the_board_only() {
    let full = grid_with(
        3,
        3,
        &[(0, 0), (0, 1), (0, 2), (1, 0), (1, 1), (1, 2), (2, 0), (2, 1), (2, 2)],
    );
    assert_eq!(count_live_neighbors(&full, 0, 0), 3);
    assert_eq!(count_live_neighbors(&full, 0, 1), 5);
    assert_eq!(count_live_neighbors(&full, 1, 1), 8);
    assert_eq!(count_live_neighbors(&full, 2, 2), 3);
    assert_eq!(count_live_neighbors(&full, 1, 2), 5);
}

#[test]
fn neighbors_of_a_position_off_the_board() {
    let grid = grid_with(2, 2, &[(1, 1)]);
    assert_eq!(count_live_neighbors(&grid, 2, 2), 1);
    assert_eq!(count_live_neighbors(&grid, 5, 5), 0);
    assert_eq!(count_live_neighbors(&grid, usize::MAX, usize::MAX), 0);
}

#[test]
fn a_cell_does_not_count_itself() {
    let grid = grid_with(3, 3, &[(1, 1)]);
    assert_eq!(count_live_neighbors(&grid, 1, 1), 0);
    assert_eq!(count_live_neighbors(&grid, 0, 0), 1);
}

#[test]
fn plus_shape_becomes_a_ring() {
    let current = grid_with(3, 3, &[(0, 1), (1, 0), (1, 1), (1, 2), (2, 1)]);
    let mut scratch = Grid::new(3, 3);
    evolve(&current, &mut scratch, 3, 3);
    assert_eq!(
        live_cells(&scratch),
        vec![(0, 0), (0, 1), (0, 2), (1, 0), (1, 2), (2, 0), (2, 1), (2, 2)]
    );
    assert_eq!(live_cells(&current).len(), 5);
}

#[test]
fn lone_corner_cell_dies_whatever_the_size() {
    for (rows, cols) in [(1usize, 1usize), (1, 5), (5, 1), (2, 2), (3, 7), (20, 20)] {
        let current = grid_with(rows, cols, &[(0, 0)]);
        let mut scratch = grid_with(rows, cols, &[(0, 0)]);
        evolve(&current, &mut scratch, rows, cols);
        assert!(live_cells(&scratch).is_empty());
        assert!(scratch.is_shaped(rows, cols));
    }
}

#[test]
fn blinker_turns() {
    let current = grid_with(3, 3, &[(1, 0), (1, 1), (1, 2)]);
    let mut scratch = Grid::new(3, 3);
    evolve(&current, &mut scratch, 3, 3);
    assert_eq!(live_cells(&scratch), vec![(0, 1), (1, 1), (2, 1)]);
}

#[test]
fn block_is_stable() {
    let block = [(1, 1), (1, 2), (2, 1), (2, 2)];
    let current = grid_with(4, 4, &block);
    let mut scratch = Grid::new(4, 4);
    evolve(&current, &mut scratch, 4, 4);
    assert_eq!(live_cells(&scratch), block.to_vec());
}

#[test]
fn evolve_on_an_empty_board() {
    let current = Grid::new(0, 0);
    let mut scratch = Grid::new(0, 0);
    evolve(&current, &mut scratch, 0, 0);
    assert_eq!(scratch.cells.len(), 0);
}

#[test]
fn only_the_draw_one_gives_life() {
    assert!(!is_live_draw(0));
    assert!(is_live_draw(1));
    assert!(!is_live_draw(2));
}

#[test]
fn randomize_keeps_shape_and_seeds_about_a_third() {
    let mut grid = Grid::new(200, 200);
    randomize(&mut grid);
    assert!(grid.is_shaped(200, 200));
    let live = live_cells(&grid).len();
    assert!(live > 11_000 && live < 15_700, "live cells: {live}");
}
