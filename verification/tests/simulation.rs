use conways_gol::grid_graph::{CellType, Gg, IndexError};
use conways_gol::life::step;
use conways_gol::simulation::{
    assign, cell_for, fill, handle, key_event, randomize, tick, Action, Event, Flags,
};
use std::sync::mpsc::channel;

fn cells(grid: &Gg) -> Vec<CellType> {
    let mut out = Vec::new();
    let mut walk = grid.iter();
    while let Some(cell) = walk.next() {
        out.push(cell);
    }
    out
}

fn blinker() -> Gg {
    let mut grid = Gg::new(5, 5);
    for x in 1..4 {
        grid.set_val(x, 2, CellType::FullCell);
    }
    grid
}

fn published(action: Action) -> Gg {
    match action {
        Action::Publish(grid) => grid,
        Action::Idle => panic!("nothing was published"),
        Action::Rejected(e) => panic!("rejected: {}", e.message()),
    }
}

#[test]
fn flags_start_paused_with_the_overlay() {
    assert_eq!(Flags::new(), Flags { running: false, show_overlay: true });
}

#[test]
fn cell_for_each_outcome() {
    assert_eq!(cell_for(true), CellType::FullCell);
    assert_eq!(cell_for(false), CellType::EmptyCell);
}

#[test]
fn keys_and_their_events() {
    assert_eq!(key_event(65), Some(Event::PlayPause));
    assert_eq!(key_event(27), Some(Event::Randomize));
    assert_eq!(key_event(42), Some(Event::ToggleOverlay));
    assert_eq!(key_event(54), Some(Event::Clear));
    for code in [0u32, 1, 26, 28, 41, 43, 53, 55, 64, 66, u32::MAX] {
        assert_eq!(key_event(code), None);
    }
}

#[test]
fn fill_sets_every_cell() {
    let mut grid = blinker();
    fill(&mut grid, CellType::FullCell);
    assert_eq!((grid.width(), grid.height()), (5, 5));
    assert_eq!(cells(&grid), vec![CellType::FullCell; 25]);
    fill(&mut grid, CellType::EmptyCell);
    assert_eq!(cells(&grid), vec![CellType::EmptyCell; 25]);
    let mut none = Gg::new(0, 2);
    fill(&mut none, CellType::FullCell);
    assert!(cells(&none).is_empty());
}

#[test]
fn assign_sets_the_cells_in_row_major_order() {
    let mut grid = Gg::new(3, 2);
    assign(&mut grid, &vec![true, false, false, false, true, true]);
    let e = CellType::EmptyCell;
    let f = CellType::FullCell;
    assert_eq!(cells(&grid), vec![f, e, e, e, f, f]);
    assert_eq!(grid.get_val(0, 0), f);
    assert_eq!(grid.get_val(1, 1), f);
    assert_eq!(grid.get_val(2, 1), f);
    assign(&mut grid, &vec![false; 6]);
    assert_eq!(cells(&grid), vec![e; 6]);
}

#[test]
fn assign_with_too_few_tosses_leaves_the_rest() {
    let mut grid = Gg::new(2, 2);
    fill(&mut grid, CellType::FullCell);
    assign(&mut grid, &vec![false, true, false]);
    let e = CellType::EmptyCell;
    let f = CellType::FullCell;
    assert_eq!(cells(&grid), vec![e, f, e, f]);
    assign(&mut grid, &Vec::new());
    assert_eq!(cells(&grid), vec![e, f, e, f]);
}

#[test]
fn assign_with_too_many_tosses_uses_the_first() {
    let mut grid = Gg::new(2, 1);
    assign(&mut grid, &vec![false, true, true, true, true]);
    assert_eq!(cells(&grid), vec![CellType::EmptyCell, CellType::FullCell]);
    let mut none = Gg::new(0, 0);
    assign(&mut none, &vec![true]);
    assert!(cells(&none).is_empty());
}

#[test]
fn randomize_keeps_the_size() {
    let mut grid = Gg::new(16, 9);
    randomize(&mut grid);
    assert_eq!((grid.width(), grid.height()), (16, 9));
    assert_eq!(cells(&grid).len(), 144);
}

#[test]
fn randomize_gives_both_states() {
    let mut grid = Gg::new(64, 64);
    randomize(&mut grid);
    let all = cells(&grid);
    assert!(all.contains(&CellType::FullCell));
    assert!(all.contains(&CellType::EmptyCell));
}

#[test]
fn tick_while_paused_does_nothing() {
    let mut grid = blinker();
    let before = cells(&grid);
    assert!(tick(&mut grid, false).is_none());
    assert_eq!(cells(&grid), before);
}

#[test]
fn tick_while_running_advances_and_publishes() {
    let mut grid = blinker();
    let expected = cells(&step(&grid));
    let snapshot = tick(&mut grid, true).unwrap();
    assert_eq!(cells(&grid), expected);
    assert_eq!(cells(&snapshot), expected);
    assert_eq!((snapshot.width(), snapshot.height()), (5, 5));
}

#[test]
fn snapshot_is_a_copy() {
    let mut grid = blinker();
    let snapshot = tick(&mut grid, true).unwrap();
    let seen = cells(&snapshot);
    grid.toggle_val(0, 0).unwrap();
    tick(&mut grid, true);
    assert_eq!(cells(&snapshot), seen);
}

#[test]
fn handle_tick() {
    let mut grid = blinker();
    let mut flags = Flags::new();
    let before = cells(&grid);
    assert!(matches!(handle(&mut grid, &mut flags, Event::Tick), Action::Idle));
    assert_eq!(cells(&grid), before);
    flags.running = true;
    let expected = cells(&step(&grid));
    let snapshot = published(handle(&mut grid, &mut flags, Event::Tick));
    assert_eq!(cells(&snapshot), expected);
    assert_eq!(cells(&grid), expected);
    assert_eq!(flags, Flags { running: true, show_overlay: true });
}

#[test]
fn handle_click() {
    let mut grid = Gg::new(4, 3);
    let mut flags = Flags::new();
    let snapshot = published(handle(&mut grid, &mut flags, Event::Click(3, 2)));
    assert_eq!(grid.get_val(3, 2), CellType::FullCell);
    assert_eq!(cells(&snapshot), cells(&grid));
    let snapshot = published(handle(&mut grid, &mut flags, Event::Click(3, 2)));
    assert_eq!(cells(&snapshot), vec![CellType::EmptyCell; 12]);
    assert_eq!(flags, Flags::new());
}

#[test]
fn handle_click_off_the_grid() {
    let mut grid = blinker();
    let mut flags = Flags::new();
    let before = cells(&grid);
    match handle(&mut grid, &mut flags, Event::Click(5, 1)) {
        Action::Rejected(e) => assert_eq!(e, IndexError { index: 5, limit: 5 }),
        _ => panic!("a click off the grid was accepted"),
    }
    match handle(&mut grid, &mut flags, Event::Click(1, 8)) {
        Action::Rejected(e) => assert_eq!(e, IndexError { index: 8, limit: 5 }),
        _ => panic!("a click off the grid was accepted"),
    }
    assert_eq!(cells(&grid), before);
    assert_eq!(flags, Flags::new());
}

#[test]
fn handle_play_pause() {
    let mut grid = blinker();
    let mut flags = Flags::new();
    let before = cells(&grid);
    assert!(matches!(handle(&mut grid, &mut flags, Event::PlayPause), Action::Idle));
    assert_eq!(flags, Flags { running: true, show_overlay: true });
    assert!(matches!(handle(&mut grid, &mut flags, Event::PlayPause), Action::Idle));
    assert_eq!(flags, Flags { running: false, show_overlay: true });
    assert_eq!(cells(&grid), before);
}

#[test]
fn handle_toggle_overlay() {
    let mut grid = blinker();
    let mut flags = Flags::new();
    let before = cells(&grid);
    let snapshot = published(handle(&mut grid, &mut flags, Event::ToggleOverlay));
    assert_eq!(flags, Flags { running: false, show_overlay: false });
    assert_eq!(cells(&snapshot), before);
    assert_eq!(cells(&grid), before);
    published(handle(&mut grid, &mut flags, Event::ToggleOverlay));
    assert_eq!(flags, Flags::new());
}

#[test]
fn handle_clear() {
    let mut grid = blinker();
    let mut flags = Flags { running: true, show_overlay: false };
    let snapshot = published(handle(&mut grid, &mut flags, Event::Clear));
    assert_eq!(cells(&grid), vec![CellType::EmptyCell; 25]);
    assert_eq!(cells(&snapshot), vec![CellType::EmptyCell; 25]);
    assert_eq!(flags, Flags { running: true, show_overlay: false });
}

#[test]
fn handle_randomize() {
    let mut grid = Gg::new(32, 32);
    let mut flags = Flags::new();
    let snapshot = published(handle(&mut grid, &mut flags, Event::Randomize));
    assert_eq!((grid.width(), grid.height()), (32, 32));
    assert_eq!(cells(&snapshot), cells(&grid));
    assert!(cells(&grid).contains(&CellType::FullCell));
    assert_eq!(flags, Flags::new());
}

#[test]
fn snapshots_arrive_whole_and_in_the_order_published() {
    let (sender, receiver) = channel::<Gg>();
    let mut grid = blinker();
    let mut flags = Flags::new();
    let events = [
        Event::PlayPause,
        Event::Tick,
        Event::Click(0, 0),
        Event::Tick,
        Event::Click(9, 9),
        Event::ToggleOverlay,
        Event::PlayPause,
        Event::Tick,
        Event::Clear,
    ];
    let mut expected = Vec::new();
    for event in events {
        if let Action::Publish(snapshot) = handle(&mut grid, &mut flags, event) {
            expected.push(cells(&grid));
            sender.send(snapshot).unwrap();
        }
    }
    drop(sender);
    let mut seen = Vec::new();
    for snapshot in receiver {
        assert_eq!((snapshot.width(), snapshot.height()), (5, 5));
        let all = cells(&snapshot);
        assert_eq!(all.len(), 25);
        seen.push(all);
    }
    assert_eq!(seen.len(), 5);
    assert_eq!(seen, expected);
    assert_eq!(seen[4], vec![CellType::EmptyCell; 25]);
}
