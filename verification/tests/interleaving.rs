use conways_gol::grid_graph::{CellType, Gg};
use conways_gol::simulation::{handle, Action, Event, Flags};
use std::sync::mpsc::channel;
use std::sync::{Arc, Mutex};

fn alive_cells(grid: &Gg) -> Vec<(usize, usize)> {
    let mut out = Vec::new();
    for y in 0..grid.height() {
        for x in 0..grid.width() {
            if grid.get_val(x, y) == CellType::FullCell {
                out.push((x, y));
            }
        }
    }
    out
}

#[test]
fn interleaved_toggles_are_neither_lost_nor_doubled() {
    let width = 16;
    let height = 8;
    let shared = Arc::new(Mutex::new(Gg::new(width, height)));
    let (sender, receiver) = channel::<Gg>();
    let mut published = 0;

    // Each row has a writer of its own; the writers take turns, one click
    // at a time, and a paused tick comes between any two clicks.
    for round in 0..3 {
        for x in 0..width {
            for row in 0..height {
                if round < 2 || x % 2 == 0 {
                    let writer = Arc::clone(&shared);
                    let mut grid = writer.lock().unwrap();
                    match handle(&mut grid, &mut Flags::new(), Event::Click(x, row)) {
                        Action::Publish(snapshot) => sender.send(snapshot).unwrap(),
                        _ => panic!("a click on the grid was not published"),
                    }
                    published += 1;
                }
                let ticker = Arc::clone(&shared);
                let mut grid = ticker.lock().unwrap();
                assert!(matches!(
                    handle(&mut grid, &mut Flags::new(), Event::Tick),
                    Action::Idle
                ));
            }
        }
    }
    drop(sender);

    let mut expected = Vec::new();
    for y in 0..height {
        for x in 0..width {
            if x % 2 == 0 {
                expected.push((x, y));
            }
        }
    }
    assert_eq!(alive_cells(&shared.lock().unwrap()), expected);

    let mut count = 0;
    let mut last = None;
    for snapshot in receiver {
        assert_eq!((snapshot.width(), snapshot.height()), (width, height));
        count += 1;
        last = Some(alive_cells(&snapshot));
    }
    assert_eq!(count, published);
    assert_eq!(count, height * (2 * width + width / 2));
    assert_eq!(last, Some(expected));
}

#[test]
fn running_ticks_between_toggles_keep_the_grid_whole() {
    let shared = Mutex::new(Gg::new(12, 12));
    let mut flags = Flags { running: true, show_overlay: true };
    for step in 0..200usize {
        for column in 0..4usize {
            let mut grid = shared.lock().unwrap();
            grid.toggle_val(column * 3, step % 12).unwrap();
            assert!(grid.toggle_val(12, step).is_err());
        }
        let mut grid = shared.lock().unwrap();
        match handle(&mut grid, &mut flags, Event::Tick) {
            Action::Publish(snapshot) => {
                assert_eq!((snapshot.width(), snapshot.height()), (12, 12));
                assert_eq!(alive_cells(&snapshot), alive_cells(&grid));
            },
            _ => panic!("a running tick published nothing"),
        }
    }
    let grid = shared.lock().unwrap();
    assert_eq!((grid.width(), grid.height()), (12, 12));
}
