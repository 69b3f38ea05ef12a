//! What the simulation does on each event: the tick that advances the grid,
//! the edits that reach it from outside, and the two control flags. The
//! caller owns the lock, the clock and the channel; every function here
//! takes the grid it guards and says what to publish.

use crate::board::Board;
use crate::grid_graph::{CellType, Gg, IndexError};
use crate::life::compute;
use vstd::prelude::*;

verus! {

/// The two control flags: whether ticks advance the grid, and whether the
/// overlay is drawn.
#[derive(Clone, Copy, PartialEq, Eq, Structural, Debug)]
pub struct Flags {
    pub running: bool,
    pub show_overlay: bool,
}

/// What can happen to a simulation.
#[derive(Clone, Copy, PartialEq, Eq, Structural, Debug)]
pub enum Event {
    /// One period of the clock has passed.
    Tick,
    /// The cell at `(x, y)` was picked.
    Click(usize, usize),
    PlayPause,
    Randomize,
    ToggleOverlay,
    Clear,
}

/// What the caller is to do after an event.
pub enum Action {
    /// Nothing.
    Idle,
    /// Hand this copy of the grid to the consumer.
    Publish(Gg),
    /// The event named a coordinate off the grid; the grid is untouched.
    Rejected(IndexError),
}

impl Action {
    /// The value of the grid to publish, if there is one.
    pub open spec fn snapshot(self) -> Option<Board> {
        match self {
            Action::Publish(grid) => Some(grid@),
            _ => None,
        }
    }

    /// The error to report, if there is one.
    pub open spec fn rejection(self) -> Option<IndexError> {
        match self {
            Action::Rejected(e) => Some(e),
            _ => None,
        }
    }
}

/// One coin toss, by `rand::random::<bool>()`, which draws from the calling
/// thread's generator. Nothing is claimed of the outcome.
#[verifier::external_body]
fn random_bit() -> (bit: bool) {
    rand::random()
}

/// The cell that a coin toss stands for: full for `true`, empty for `false`.
pub fn cell_for(bit: bool) -> (cell: CellType)
    ensures
        cell == if bit {
            CellType::FullCell
        } else {
            CellType::EmptyCell
        },
{
    if bit {
        CellType::FullCell
    } else {
        CellType::EmptyCell
    }
}

/// Sets every cell to `val`.
pub fn fill(grid: &mut Gg, val: CellType)
    ensures
        final(grid)@ == Board::filled(old(grid)@.width, old(grid)@.height(), val),
{
    let width = grid.width();
    let height = grid.height();
    let mut walk = grid.iter_mut();
    let ghost target = final(walk.gg)@;
    #[verifier::loop_isolation(false)]
    loop
        invariant
            final(walk.gg)@ == target,
            walk.gg@.wf(),
            walk.gg@.width == width,
            walk.gg@.height() == height,
            walk.index_h <= height,
            walk.index_w == 0 || walk.index_w < width,
            forall|x: int, y: int|
                walk.gg@.in_bounds(x, y) && Board::precedes(
                    x,
                    y,
                    walk.index_w as int,
                    walk.index_h as int,
                ) ==> #[trigger] walk.gg@.cell(x, y) == val,
        decreases height - walk.index_h, width - walk.index_w,
    {
        let ghost before = walk.gg@;
        let ghost cx = walk.index_w as int;
        let ghost cy = walk.index_h as int;
        match walk.next() {
            Some(cell) => {
                *cell = val;
                proof {
                    assert forall|x: int, y: int|
                        walk.gg@.in_bounds(x, y) && Board::precedes(
                            x,
                            y,
                            walk.index_w as int,
                            walk.index_h as int,
                        ) implies #[trigger] walk.gg@.cell(x, y) == val by {
                        if x != cx || y != cy {
                            assert(Board::precedes(x, y, cx, cy));
                            assert(before.cell(x, y) == val);
                        }
                    }
                }
            },
            None => {
                break;
            },
        }
    }
    proof {
        let done = walk.gg@;
        let all = Board::filled(width as nat, height as nat, val);
        assert forall|y: int| 0 <= y < height implies #[trigger] done.rows[y] =~= all.rows[y] by {
            assert forall|x: int| 0 <= x < width implies #[trigger] done.rows[y][x]
                == all.rows[y][x] by {
                assert(done.cell(x, y) == val);
            }
        }
        assert(done =~~= all);
    }
}

/// Sets the cells, in row-major order, to what `tosses` say: full for
/// `true`, empty for `false`. Cells beyond the end of `tosses` stay as they
/// are, and tosses beyond the last cell are not looked at.
pub fn assign(grid: &mut Gg, tosses: &Vec<bool>)
    ensures
        final(grid)@ == old(grid)@.assigned(tosses@),
{
    let width = grid.width();
    let height = grid.height();
    let ghost start = grid@;
    let mut walk = grid.iter_mut();
    let ghost target = final(walk.gg)@;
    let mut k: usize = 0;
    #[verifier::loop_isolation(false)]
    loop
        invariant
            k <= tosses.len(),
            k == start.index_of(walk.index_w as int, walk.index_h as int),
            final(walk.gg)@ == target,
            walk.gg@.wf(),
            walk.gg@.width == width,
            walk.gg@.height() == height,
            walk.index_h <= height,
            walk.index_w == 0 || walk.index_w < width,
            forall|x: int, y: int|
                start.in_bounds(x, y) ==> #[trigger] walk.gg@.cell(x, y) == start.assigned(
                    tosses@,
                ).cell(x, y) || (!Board::precedes(x, y, walk.index_w as int, walk.index_h as int)
                    && walk.gg@.cell(x, y) == start.cell(x, y)),
        decreases height - walk.index_h, width - walk.index_w,
    {
        if k >= tosses.len() {
            break;
        }
        let ghost before = walk.gg@;
        let ghost cx = walk.index_w as int;
        let ghost cy = walk.index_h as int;
        proof {
            assert forall|x: int, y: int| start.in_bounds(x, y) implies (Board::precedes(
                x,
                y,
                cx,
                cy,
            ) <==> start.index_of(x, y) < k) by {
                if width > 0 {
                    start.lemma_index_order(x, y, cx, cy);
                }
            }
            if start.in_bounds(cx, cy) {
                start.lemma_row_major(cx, cy);
            }
        }
        match walk.next() {
            Some(cell) => {
                *cell = cell_for(tosses[k]);
                k = k + 1;
                proof {
                    assert forall|x: int, y: int| start.in_bounds(x, y) implies #[trigger]
                        walk.gg@.cell(x, y) == start.assigned(tosses@).cell(x, y) || (
                    !Board::precedes(x, y, walk.index_w as int, walk.index_h as int)
                        && walk.gg@.cell(x, y) == start.cell(x, y)) by {
                        if x != cx || y != cy {
                            assert(walk.gg@.cell(x, y) == before.cell(x, y));
                        }
                    }
                }
            },
            None => {
                break;
            },
        }
    }
    proof {
        let done = walk.gg@;
        let all = start.assigned(tosses@);
        let cx = walk.index_w as int;
        let cy = walk.index_h as int;
        assert forall|y: int| 0 <= y < height implies #[trigger] done.rows[y] =~= all.rows[y] by {
            assert forall|x: int| 0 <= x < width implies #[trigger] done.rows[y][x]
                == all.rows[y][x] by {
                start.lemma_index_order(x, y, cx, cy);
                assert(done.cell(x, y) == all.cell(x, y) || (!Board::precedes(x, y, cx, cy)
                    && done.cell(x, y) == start.cell(x, y)));
            }
        }
        assert(done =~~= all);
    }
}

/// Gives every cell the outcome of a coin toss of its own. The grid keeps
/// its size; which cells are alive afterwards is up to the coins.
pub fn randomize(grid: &mut Gg)
    ensures
        final(grid)@.wf(),
        final(grid)@.width == old(grid)@.width,
        final(grid)@.height() == old(grid)@.height(),
{
    let width = grid.width();
    let height = grid.height();
    let mut tosses: Vec<bool> = Vec::new();
    for _row in 0..height {
        for _column in 0..width {
            tosses.push(random_bit());
        }
    }
    assign(grid, &tosses);
}

/// One tick of the clock: while running, the grid moves on by one
/// generation and a copy of it is returned for publishing; while paused,
/// nothing happens.
pub fn tick(grid: &mut Gg, running: bool) -> (snapshot: Option<Gg>)
    ensures
        running ==> final(grid)@ == old(grid)@.step() && snapshot.is_some()
            && snapshot.unwrap()@ == final(grid)@,
        !running ==> final(grid)@ == old(grid)@ && snapshot.is_none(),
        final(grid)@.wf(),
{
    let _ = grid.width();
    if running {
        let previous = grid.clone();
        compute(grid, &previous);
        proof {
            previous@.step().lemma_top_left_whole();
        }
        Some(grid.clone())
    } else {
        None
    }
}

/// The event that a key stands for, by its hardware code; `None` for a key
/// that has no meaning here.
pub fn key_event(code: u32) -> (event: Option<Event>)
    ensures
        event == if code == 65 {
            Some(Event::PlayPause)
        } else if code == 27 {
            Some(Event::Randomize)
        } else if code == 42 {
            Some(Event::ToggleOverlay)
        } else if code == 54 {
            Some(Event::Clear)
        } else {
            None
        },
{
    if code == 65 {
        Some(Event::PlayPause)
    } else if code == 27 {
        Some(Event::Randomize)
    } else if code == 42 {
        Some(Event::ToggleOverlay)
    } else if code == 54 {
        Some(Event::Clear)
    } else {
        None
    }
}

impl Flags {
    /// The flags at start-up: paused, with the overlay drawn.
    pub fn new() -> (flags: Flags)
        ensures
            flags == (Flags { running: false, show_overlay: true }),
    {
        Flags { running: false, show_overlay: true }
    }
}

/// Applies one event to the grid and the flags, and says what the caller is
/// to do. Whatever is published is a copy of the grid as the event left it.
pub fn handle(grid: &mut Gg, flags: &mut Flags, event: Event) -> (action: Action)
    ensures
        final(grid)@.wf(),
        final(grid)@.width == old(grid)@.width,
        final(grid)@.height() == old(grid)@.height(),
        action.snapshot() is Some ==> action.snapshot() == Some(final(grid)@),
        match event {
            Event::Tick => {
                &&& *final(flags) == *old(flags)
                &&& old(flags).running ==> final(grid)@ == old(grid)@.step()
                    && action.snapshot() is Some
                &&& !old(flags).running ==> final(grid)@ == old(grid)@ && action is Idle
            },
            Event::Click(x, y) => {
                &&& *final(flags) == *old(flags)
                &&& match old(grid)@.bounds_error(x, y) {
                    None => final(grid)@ == old(grid)@.toggle(x as int, y as int)
                        && action.snapshot() is Some,
                    Some(e) => final(grid)@ == old(grid)@ && action.rejection() == Some(e),
                }
            },
            Event::PlayPause => {
                &&& final(grid)@ == old(grid)@
                &&& final(flags).running == !old(flags).running
                &&& final(flags).show_overlay == old(flags).show_overlay
                &&& action is Idle
            },
            Event::Randomize => {
                &&& *final(flags) == *old(flags)
                &&& action.snapshot() is Some
            },
            Event::ToggleOverlay => {
                &&& final(grid)@ == old(grid)@
                &&& final(flags).running == old(flags).running
                &&& final(flags).show_overlay == !old(flags).show_overlay
                &&& action.snapshot() is Some
            },
            Event::Clear => {
                &&& *final(flags) == *old(flags)
                &&& final(grid)@ == Board::empty(old(grid)@.width, old(grid)@.height())
                &&& action.snapshot() is Some
            },
        },
{
    let _ = grid.width();
    match event {
        Event::Tick => match tick(grid, flags.running) {
            Some(snapshot) => Action::Publish(snapshot),
            None => Action::Idle,
        },
        Event::Click(x, y) => match grid.toggle_val(x, y) {
            Ok(()) => Action::Publish(grid.clone()),
            Err(e) => Action::Rejected(e),
        },
        Event::PlayPause => {
            flags.running = !flags.running;
            Action::Idle
        },
        Event::Randomize => {
            randomize(grid);
            Action::Publish(grid.clone())
        },
        Event::ToggleOverlay => {
            flags.show_overlay = !flags.show_overlay;
            Action::Publish(grid.clone())
        },
        Event::Clear => {
            fill(grid, CellType::EmptyCell);
            Action::Publish(grid.clone())
        },
    }
}

} // verus!
