use crossbeam::channel::{bounded, unbounded, Receiver, Sender};
use game_of_life::app::{keeps_stepping, react, App, FromUiMsg, Polled, Reaction, ToUiMeg};
use game_of_life::generation::Generation;
use game_of_life::grid::Grid;
use game_of_life::universe::{Metadata, Ruleset, Universe};
use parking_lot::RwLock;
use std::sync::atomic::{AtomicBool, Ordering};
use std::sync::Arc;

fn shared() -> Arc<RwLock<Generation>> {
    Arc::new(RwLock::new(Generation::new()))
}

fn count_live(grid: &Grid) -> usize {
    grid.cells.iter().map(|row| row.iter().filter(|&&c| c).count()).sum()
}

fn live_cells(grid: &Grid) -> Vec<(usize, usize)> {
    let mut cells = Vec::new();
    for (r, row) in grid.cells.iter().enumerate() {
        for (c, &live) in row.iter().enumerate() {
            if live {
                cells.push((r, c));
            }
        }
    }
    cells
}

fn plant(handle: &Arc<RwLock<Generation>>, rows: usize, cols: usize, live: &[(usize, usize)]) {
    let mut guard = handle.write();
    guard.map = Grid::new(rows, cols);
    for &(r, c) in live {
        guard.map.set(r, c, true);
    }
}

fn controller(running: bool) -> (App, Sender<FromUiMsg>, Arc<AtomicBool>, Arc<RwLock<Generation>>) {
    let (sender, receiver): (Sender<FromUiMsg>, Receiver<FromUiMsg>) = unbounded();
    let flag = Arc::new(AtomicBool::new(running));
    let handle = shared();
    let app = App::new(receiver, Arc::clone(&flag), Arc::clone(&handle));
    (app, sender, flag, handle)
}

#[test]
fn ruleset_notation_is_b3_s23() {
    assert_eq!(Ruleset::Life.notation(), "B3/S23");
    assert_eq!(Ruleset::default(), Ruleset::Life);
}

#[test]
fn default_metadata_is_blank() {
    let metadata = Metadata::default();
    assert!(metadata.author.is_none());
    assert!(metadata.name.is_none());
    assert!(metadata.comments.is_empty());
    assert_eq!(metadata.ruleset, Ruleset::Life);
}

#[test]
fn new_universe_has_default_dimensions_and_seeds_the_board() {
    let handle = shared();
    let universe = Universe::new(Arc::clone(&handle));
    assert_eq!(universe.rows, 100);
    assert_eq!(universe.cols, 100);
    assert!(universe.switchmap.is_shaped(100, 100));
    assert!(Arc::ptr_eq(&universe.generation, &handle));
    let guard = handle.read();
    assert!(guard.map.is_shaped(100, 100));
    assert_eq!(guard.gen_count, 0);
    assert_eq!(guard.cell_size, 10);
    let live = count_live(&guard.map);
    assert!(live > 2_300 && live < 4_400, "live cells: {live}");
}

#[test]
fn advance_adds_exactly_one_to_the_count() {
    let handle = shared();
    let mut universe = Universe::new(Arc::clone(&handle));
    for expected in 1..=3usize {
        assert!(universe.advance_generation());
        assert_eq!(handle.read().gen_count, expected);
    }
}

#[test]
fn advance_counts_even_when_no_cell_changes() {
    let handle = shared();
    let mut universe = Universe::new(Arc::clone(&handle));
    universe.clear();
    assert!(universe.advance_generation());
    let guard = handle.read();
    assert_eq!(guard.gen_count, 1);
    assert_eq!(count_live(&guard.map), 0);
}

#[test]
fn advance_on_an_exclusive_frame() {
    let mut universe = Universe::new(shared());
    universe.resize(3, 3, 4);
    let mut frame = Generation { cell_size: 4, map: Grid::new(3, 3), gen_count: 9 };
    for (r, c) in [(1, 0), (1, 1), (1, 2)] {
        frame.map.set(r, c, true);
    }
    assert!(universe.accepts(&frame));
    universe.advance(&mut frame);
    assert_eq!(live_cells(&frame.map), vec![(0, 1), (1, 1), (2, 1)]);
    assert_eq!(live_cells(&universe.switchmap), vec![(0, 1), (1, 1), (2, 1)]);
    assert_eq!(frame.gen_count, 10);
    assert_eq!(frame.cell_size, 4);
}

#[test]
fn plus_shape_after_one_generation() {
    let handle = shared();
    let mut universe = Universe::new(Arc::clone(&handle));
    universe.resize(3, 3, 10);
    plant(&handle, 3, 3, &[(0, 1), (1, 0), (1, 1), (1, 2), (2, 1)]);
    assert!(universe.advance_generation());
    let guard = handle.read();
    assert_eq!(
        live_cells(&guard.map),
        vec![(0, 0), (0, 1), (0, 2), (1, 0), (1, 2), (2, 0), (2, 1), (2, 2)]
    );
    assert_eq!(guard.gen_count, 1);
}

#[test]
fn lone_cell_in_the_corner_dies() {
    let handle = shared();
    let mut universe = Universe::new(Arc::clone(&handle));
    universe.resize(6, 4, 10);
    plant(&handle, 4, 6, &[(0, 0)]);
    assert!(universe.advance_generation());
    assert_eq!(count_live(&handle.read().map), 0);
}

#[test]
fn advance_refuses_a_frame_of_other_dimensions() {
    let handle = shared();
    let mut universe = Universe::new(Arc::clone(&handle));
    plant(&handle, 2, 2, &[(0, 0), (0, 1), (1, 0)]);
    assert!(!universe.advance_generation());
    let guard = handle.read();
    assert_eq!(guard.gen_count, 0);
    assert_eq!(live_cells(&guard.map), vec![(0, 0), (0, 1), (1, 0)]);
}

#[test]
fn advance_refuses_a_count_that_cannot_grow() {
    let handle = shared();
    let mut universe = Universe::new(Arc::clone(&handle));
    handle.write().gen_count = usize::MAX;
    assert!(!universe.accepts(&handle.read()));
    assert!(!universe.advance_generation());
    assert_eq!(handle.read().gen_count, usize::MAX);
}

#[test]
fn clear_kills_all_and_keeps_dimensions_and_cell_size() {
    let handle = shared();
    let mut universe = Universe::new(Arc::clone(&handle));
    universe.resize(7, 5, 3);
    universe.advance_generation();
    universe.clear();
    assert_eq!(universe.rows, 5);
    assert_eq!(universe.cols, 7);
    assert!(universe.switchmap.is_shaped(5, 7));
    assert_eq!(count_live(&universe.switchmap), 0);
    let guard = handle.read();
    assert!(guard.map.is_shaped(5, 7));
    assert_eq!(count_live(&guard.map), 0);
    assert_eq!(guard.gen_count, 0);
    assert_eq!(guard.cell_size, 3);
}

#[test]
fn resize_gives_new_dimensions_count_zero_and_cell_size() {
    let handle = shared();
    let mut universe = Universe::new(Arc::clone(&handle));
    universe.advance_generation();
    universe.resize(30, 20, 5);
    assert_eq!(universe.cols, 30);
    assert_eq!(universe.rows, 20);
    assert!(universe.switchmap.is_shaped(20, 30));
    let guard = handle.read();
    assert!(guard.map.is_shaped(20, 30));
    assert_eq!(guard.gen_count, 0);
    assert_eq!(guard.cell_size, 5);
}

#[test]
fn resize_seeds_about_a_third_of_the_cells() {
    let handle = shared();
    let mut universe = Universe::new(Arc::clone(&handle));
    universe.resize(200, 150, 2);
    let live = count_live(&handle.read().map);
    assert!(live > 8_000 && live < 12_000, "live cells: {live}");
}

#[test]
fn resize_to_nothing_can_still_advance() {
    let handle = shared();
    let mut universe = Universe::new(Arc::clone(&handle));
    universe.resize(0, 0, 1);
    assert!(universe.advance_generation());
    let guard = handle.read();
    assert_eq!(guard.map.cells.len(), 0);
    assert_eq!(guard.gen_count, 1);
}

#[test]
fn rebuild_returns_the_frame_for_the_new_dimensions() {
    let mut universe = Universe::new(shared());
    let frame = universe.rebuild(8, 6, 12);
    assert!(frame.map.is_shaped(6, 8));
    assert_eq!(frame.gen_count, 0);
    assert_eq!(frame.cell_size, 12);
    assert_eq!(universe.rows, 6);
    assert_eq!(universe.cols, 8);
    assert!(universe.accepts(&frame));
}

#[test]
fn clear_frame_kills_all_on_an_exclusive_frame() {
    let mut universe = Universe::new(shared());
    universe.resize(3, 2, 4);
    universe.switchmap.set(1, 2, true);
    let mut frame = Generation { cell_size: 4, map: Grid::new(2, 3), gen_count: 17 };
    frame.map.set(0, 0, true);
    frame.map.set(1, 2, true);
    universe.clear_frame(&mut frame);
    assert!(frame.map.is_shaped(2, 3));
    assert_eq!(count_live(&frame.map), 0);
    assert_eq!(frame.gen_count, 0);
    assert_eq!(frame.cell_size, 4);
    assert!(universe.switchmap.is_shaped(2, 3));
    assert_eq!(count_live(&universe.switchmap), 0);
    assert_eq!((universe.rows, universe.cols), (2, 3));
}

#[test]
fn adopt_returns_the_board_as_it_is() {
    let mut universe = Universe::new(shared());
    let mut board = Grid::new(2, 4);
    board.set(0, 3, true);
    board.set(1, 1, true);
    let mut metadata = Metadata::default();
    metadata.name = Some("two cells".to_owned());
    let frame = universe.adopt(metadata, 2, 4, board, 7);
    assert_eq!(live_cells(&frame.map), vec![(0, 3), (1, 1)]);
    assert!(frame.map.is_shaped(2, 4));
    assert_eq!(frame.gen_count, 0);
    assert_eq!(frame.cell_size, 7);
    assert_eq!((universe.rows, universe.cols), (2, 4));
    assert_eq!(universe.metadata.name.as_deref(), Some("two cells"));
    assert!(universe.switchmap.is_shaped(2, 4));
    assert_eq!(count_live(&universe.switchmap), 0);
    assert!(universe.accepts(&frame));
}

#[test]
fn reactions_to_each_message() {
    assert_eq!(react(Polled::Message(FromUiMsg::AdvanceOne), false), Reaction::Advance);
    assert_eq!(react(Polled::Message(FromUiMsg::AdvanceOne), true), Reaction::Idle);
    assert_eq!(react(Polled::Message(FromUiMsg::Clear), true), Reaction::Clear);
    assert_eq!(react(Polled::Message(FromUiMsg::Clear), false), Reaction::Clear);
    assert_eq!(react(Polled::Message(FromUiMsg::NewGrid(7)), false), Reaction::NewGrid(7));
    assert_eq!(react(Polled::Message(FromUiMsg::Shutdown), true), Reaction::Stop);
    assert_eq!(react(Polled::Message(FromUiMsg::Shutdown), false), Reaction::Stop);
    assert_eq!(react(Polled::Empty, true), Reaction::Idle);
    assert_eq!(react(Polled::Disconnected, false), Reaction::Stop);
}

#[test]
fn running_step_follows_the_flag_unless_stopped() {
    assert!(keeps_stepping(Reaction::Idle, true));
    assert!(keeps_stepping(Reaction::Advance, true));
    assert!(!keeps_stepping(Reaction::Idle, false));
    assert!(!keeps_stepping(Reaction::Stop, true));
    assert!(!keeps_stepping(Reaction::Stop, false));
}

#[test]
fn the_message_for_the_ui_is_repaint() {
    assert_eq!(ToUiMeg::Repaint, ToUiMeg::Repaint);
}

#[test]
fn tick_without_message_and_not_running_does_nothing() {
    let (mut app, _sender, _flag, handle) = controller(false);
    let before = handle.read().map.cells.clone();
    assert!(app.tick());
    assert_eq!(handle.read().gen_count, 0);
    assert_eq!(handle.read().map.cells, before);
}

#[test]
fn tick_while_running_advances_once() {
    let (mut app, _sender, _flag, handle) = controller(true);
    assert!(app.tick());
    assert_eq!(handle.read().gen_count, 1);
    assert!(app.tick());
    assert_eq!(handle.read().gen_count, 2);
}

#[test]
fn advance_one_is_honoured_when_not_running() {
    let (mut app, sender, _flag, handle) = controller(false);
    sender.send(FromUiMsg::AdvanceOne).unwrap();
    assert!(app.tick());
    assert_eq!(handle.read().gen_count, 1);
    assert!(app.tick());
    assert_eq!(handle.read().gen_count, 1);
}

#[test]
fn advance_one_is_ignored_while_running() {
    let (mut app, sender, _flag, handle) = controller(true);
    sender.send(FromUiMsg::AdvanceOne).unwrap();
    assert!(app.tick());
    assert_eq!(handle.read().gen_count, 1);
}

#[test]
fn one_message_per_tick_in_send_order() {
    let (mut app, sender, _flag, handle) = controller(false);
    sender.send(FromUiMsg::AdvanceOne).unwrap();
    sender.send(FromUiMsg::NewGrid(3)).unwrap();
    sender.send(FromUiMsg::AdvanceOne).unwrap();
    assert!(app.tick());
    assert_eq!(handle.read().gen_count, 1);
    assert_eq!(handle.read().cell_size, 10);
    assert!(app.tick());
    assert_eq!(handle.read().gen_count, 0);
    assert_eq!(handle.read().cell_size, 3);
    assert!(app.tick());
    assert_eq!(handle.read().gen_count, 1);
}

#[test]
fn clear_message_clears() {
    let (mut app, sender, _flag, handle) = controller(false);
    sender.send(FromUiMsg::AdvanceOne).unwrap();
    sender.send(FromUiMsg::Clear).unwrap();
    assert!(app.tick());
    assert!(app.tick());
    let guard = handle.read();
    assert_eq!(guard.gen_count, 0);
    assert_eq!(count_live(&guard.map), 0);
    assert!(guard.map.is_shaped(100, 100));
}

#[test]
fn new_grid_message_keeps_dimensions_and_sets_cell_size() {
    let (mut app, sender, _flag, handle) = controller(false);
    sender.send(FromUiMsg::NewGrid(25)).unwrap();
    assert!(app.tick());
    assert_eq!(app.universe.rows, 100);
    assert_eq!(app.universe.cols, 100);
    let guard = handle.read();
    assert!(guard.map.is_shaped(100, 100));
    assert_eq!(guard.cell_size, 25);
    assert_eq!(guard.gen_count, 0);
}

#[test]
fn shutdown_stops_without_another_generation() {
    let (mut app, sender, _flag, handle) = controller(true);
    assert!(app.tick());
    let count = handle.read().gen_count;
    let cells = handle.read().map.cells.clone();
    sender.send(FromUiMsg::Shutdown).unwrap();
    assert!(!app.tick());
    assert_eq!(handle.read().gen_count, count);
    assert_eq!(handle.read().map.cells, cells);
}

#[test]
fn a_dropped_sender_stops_the_loop() {
    let (mut app, sender, _flag, handle) = controller(true);
    drop(sender);
    assert!(!app.tick());
    assert_eq!(handle.read().gen_count, 0);
}

#[test]
fn messages_sent_before_the_sender_left_are_still_handled() {
    let (mut app, sender, _flag, handle) = controller(false);
    sender.send(FromUiMsg::AdvanceOne).unwrap();
    drop(sender);
    assert!(app.tick());
    assert_eq!(handle.read().gen_count, 1);
    assert!(!app.tick());
}

#[test]
fn the_flag_is_read_anew_each_tick() {
    let (mut app, _sender, flag, handle) = controller(false);
    assert!(app.tick());
    assert_eq!(handle.read().gen_count, 0);
    flag.store(true, Ordering::SeqCst);
    assert!(app.tick());
    assert_eq!(handle.read().gen_count, 1);
    flag.store(false, Ordering::SeqCst);
    assert!(app.tick());
    assert_eq!(handle.read().gen_count, 1);
}

#[test]
fn a_rendezvous_channel_without_a_waiting_sender_is_empty() {
    let (sender, receiver): (Sender<FromUiMsg>, Receiver<FromUiMsg>) = bounded(0);
    let handle = shared();
    let mut app = App::new(receiver, Arc::new(AtomicBool::new(false)), Arc::clone(&handle));
    assert!(app.tick());
    assert_eq!(handle.read().gen_count, 0);
    drop(sender);
    assert!(!app.tick());
}

#[test]
fn perform_carries_out_each_reaction() {
    let (mut app, _sender, _flag, handle) = controller(false);
    assert!(app.perform(Reaction::Advance));
    assert_eq!(handle.read().gen_count, 1);
    assert!(app.perform(Reaction::Idle));
    assert_eq!(handle.read().gen_count, 1);
    assert!(app.perform(Reaction::NewGrid(2)));
    assert_eq!(handle.read().cell_size, 2);
    assert!(app.perform(Reaction::Clear));
    assert_eq!(count_live(&handle.read().map), 0);
    assert!(!app.perform(Reaction::Stop));
}
