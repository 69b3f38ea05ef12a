//! The generation rule: from one board, the next.

use crate::board::Board;
use crate::grid_graph::{CellType, Gg};
use vstd::prelude::*;

verus! {

/// How many of the listed cells are alive on `board`.
pub open spec fn count_alive(board: Board, cells: Seq<(usize, usize)>) -> nat
    decreases cells.len(),
{
    if cells.len() == 0 {
        0
    } else {
        count_alive(board, cells.drop_last()) + board.one_if_alive(
            cells.last().0 as int,
            cells.last().1 as int,
        )
    }
}

/// `(nx, ny)` is one of the listed cells.
pub open spec fn lists(cells: Seq<(usize, usize)>, nx: int, ny: int) -> bool {
    exists|k: int| 0 <= k < cells.len() && (#[trigger] cells[k]).0 == nx && cells[k].1 == ny
}

spec fn hit(board: Board, cells: Seq<(usize, usize)>, nx: int, ny: int) -> nat {
    if board.alive(nx, ny) && lists(cells, nx, ny) {
        1
    } else {
        0
    }
}

/// How many of the eight positions around `(x, y)` are both listed and alive.
spec fn hits(board: Board, cells: Seq<(usize, usize)>, x: int, y: int) -> nat {
    hit(board, cells, x - 1, y - 1) + hit(board, cells, x - 1, y) + hit(board, cells, x - 1, y + 1)
        + hit(board, cells, x, y - 1) + hit(board, cells, x, y + 1) + hit(
        board,
        cells,
        x + 1,
        y - 1,
    ) + hit(board, cells, x + 1, y) + hit(board, cells, x + 1, y + 1)
}

proof fn lemma_lists_push(cells: Seq<(usize, usize)>, nx: int, ny: int)
    requires
        cells.len() > 0,
    ensures
        lists(cells, nx, ny) <==> lists(cells.drop_last(), nx, ny) || (cells.last().0 == nx
            && cells.last().1 == ny),
{
    let rest = cells.drop_last();
    if lists(cells, nx, ny) {
        let k = choose|k: int| 0 <= k < cells.len() && (#[trigger] cells[k]).0 == nx && cells[k].1 == ny;
        if k < rest.len() {
            assert(rest[k] == cells[k]);
        }
    }
    if lists(rest, nx, ny) {
        let k = choose|k: int| 0 <= k < rest.len() && (#[trigger] rest[k]).0 == nx && rest[k].1 == ny;
        assert(cells[k] == rest[k]);
    }
    if cells.last().0 == nx && cells.last().1 == ny {
        assert(cells[cells.len() - 1] == cells.last());
    }
}

proof fn lemma_count_alive_is_hits(board: Board, x: int, y: int, cells: Seq<(usize, usize)>)
    requires
        cells.no_duplicates(),
        forall|k: int|
            0 <= k < cells.len() ==> board.is_neighbor(
                x,
                y,
                (#[trigger] cells[k]).0 as int,
                cells[k].1 as int,
            ),
    ensures
        count_alive(board, cells) == hits(board, cells, x, y),
    decreases cells.len(),
{
    if cells.len() > 0 {
        let rest = cells.drop_last();
        let last = cells.last();
        assert(board.is_neighbor(x, y, cells[cells.len() - 1].0 as int, cells[cells.len() - 1].1 as int));
        assert forall|k: int| 0 <= k < rest.len() implies board.is_neighbor(
            x,
            y,
            (#[trigger] rest[k]).0 as int,
            rest[k].1 as int,
        ) by {
            assert(rest[k] == cells[k]);
        }
        lemma_count_alive_is_hits(board, x, y, rest);
        assert(!lists(rest, last.0 as int, last.1 as int)) by {
            if lists(rest, last.0 as int, last.1 as int) {
                let k = choose|k: int|
                    0 <= k < rest.len() && (#[trigger] rest[k]).0 == last.0 && rest[k].1 == last.1;
                assert(cells[k] == rest[k]);
                assert(cells[k] == cells[cells.len() - 1]);
            }
        }
        lemma_lists_push(cells, x - 1, y - 1);
        lemma_lists_push(cells, x - 1, y);
        lemma_lists_push(cells, x - 1, y + 1);
        lemma_lists_push(cells, x, y - 1);
        lemma_lists_push(cells, x, y + 1);
        lemma_lists_push(cells, x + 1, y - 1);
        lemma_lists_push(cells, x + 1, y);
        lemma_lists_push(cells, x + 1, y + 1);
    } else {
        assert(hits(board, cells, x, y) == 0);
    }
}

/// Counting the live cells of a list that holds each neighbour of `(x, y)`
/// once, and nothing else, gives the number of live neighbours of `(x, y)`.
pub proof fn lemma_count_alive_neighbors(board: Board, x: int, y: int, cells: Seq<(usize, usize)>)
    requires
        cells.no_duplicates(),
        forall|k: int|
            0 <= k < cells.len() ==> board.is_neighbor(
                x,
                y,
                (#[trigger] cells[k]).0 as int,
                cells[k].1 as int,
            ),
        forall|nx: int, ny: int| #[trigger] board.is_neighbor(x, y, nx, ny) ==> lists(cells, nx, ny),
    ensures
        count_alive(board, cells) == board.live_neighbors(x, y),
{
    lemma_count_alive_is_hits(board, x, y, cells);
    assert(board.alive(x - 1, y - 1) ==> board.is_neighbor(x, y, x - 1, y - 1));
    assert(board.alive(x - 1, y) ==> board.is_neighbor(x, y, x - 1, y));
    assert(board.alive(x - 1, y + 1) ==> board.is_neighbor(x, y, x - 1, y + 1));
    assert(board.alive(x, y - 1) ==> board.is_neighbor(x, y, x, y - 1));
    assert(board.alive(x, y + 1) ==> board.is_neighbor(x, y, x, y + 1));
    assert(board.alive(x + 1, y - 1) ==> board.is_neighbor(x, y, x + 1, y - 1));
    assert(board.alive(x + 1, y) ==> board.is_neighbor(x, y, x + 1, y));
    assert(board.alive(x + 1, y + 1) ==> board.is_neighbor(x, y, x + 1, y + 1));
}

/// The number of live cells among the neighbours of `(i, j)`.
pub fn live_neighbors(state: &Gg, i: usize, j: usize) -> (count: usize)
    ensures
        count == state@.live_neighbors(i as int, j as int),
{
    let _ = (state.width(), state.height());
    let cells = state.neighbors(i, j);
    let mut count: usize = 0;
    for k in 0..cells.len()
        invariant
            state@.wf(),
            count <= k,
            count == count_alive(state@, cells@.take(k as int)),
            forall|k: int|
                0 <= k < cells.len() ==> state@.is_neighbor(
                    i as int,
                    j as int,
                    (#[trigger] cells[k]).0 as int,
                    cells[k].1 as int,
                ),
    {
        let (ni, nj) = cells[k];
        assert(cells@.take(k + 1).drop_last() =~= cells@.take(k as int));
        if state.get_val(ni, nj) != CellType::EmptyCell {
            count += 1;
        }
    }
    proof {
        assert(cells@.take(cells.len() as int) =~= cells@);
        assert forall|nx: int, ny: int| #[trigger]
            state@.is_neighbor(i as int, j as int, nx, ny) implies lists(cells@, nx, ny) by {
            let k = choose|k: int|
                0 <= k < cells.len() && cells@[k] == (nx as usize, ny as usize);
            assert(cells[k].0 == nx && cells[k].1 == ny);
        }
        lemma_count_alive_neighbors(state@, i as int, j as int, cells@);
    }
    count
}

/// Writes the generation that follows `state` into `graph`, which must not
/// be wider or higher than `state`. A `graph` of the size of `state` ends up
/// as the whole next generation, a smaller one as its upper left part. What
/// `graph` held before has no part in the result.
pub fn compute(graph: &mut Gg, state: &Gg)
    requires
        old(graph)@.width <= state@.width,
        old(graph)@.height() <= state@.height(),
    ensures
        final(graph)@ == state@.step().top_left(old(graph)@.width, old(graph)@.height()),
{
    let width = graph.width();
    let height = graph.height();
    let _ = state.width();
    for i in 0..width
        invariant
            state@.wf(),
            graph@.wf(),
            graph@.width == width <= state@.width,
            graph@.height() == height <= state@.height(),
            forall|x: int, y: int|
                0 <= x < i && 0 <= y < height ==> #[trigger] graph@.cell(x, y) == state@.next_cell(
                    x,
                    y,
                ),
    {
        for j in 0..height
            invariant
                state@.wf(),
                graph@.wf(),
                i < width,
                graph@.width == width <= state@.width,
                graph@.height() == height <= state@.height(),
                forall|x: int, y: int|
                    0 <= x < i && 0 <= y < height ==> #[trigger] graph@.cell(x, y)
                        == state@.next_cell(x, y),
                forall|y: int|
                    0 <= y < j ==> #[trigger] graph@.cell(i as int, y) == state@.next_cell(
                        i as int,
                        y,
                    ),
        {
            let count = live_neighbors(state, i, j);
            let value = if state.get_val(i, j) != CellType::EmptyCell {
                match count == 2 || count == 3 {
                    true => CellType::FullCell,
                    false => CellType::EmptyCell,
                }
            } else {
                match count == 3 {
                    true => CellType::FullCell,
                    false => CellType::EmptyCell,
                }
            };
            let ghost before = graph@;
            graph.set_val(i, j, value);
            proof {
                assert forall|x: int, y: int| 0 <= x < i && 0 <= y < height implies #[trigger]
                    graph@.cell(x, y) == state@.next_cell(x, y) by {
                    assert(before.cell(x, y) == state@.next_cell(x, y));
                }
                assert forall|y: int| 0 <= y < j + 1 implies #[trigger] graph@.cell(i as int, y)
                    == state@.next_cell(i as int, y) by {
                    if y < j {
                        assert(before.cell(i as int, y) == state@.next_cell(i as int, y));
                    }
                }
            }
        }
    }
    proof {
        let part = state@.step().top_left(width as nat, height as nat);
        assert forall|y: int| 0 <= y < height implies #[trigger] graph@.rows[y] =~= part.rows[y] by {
            assert forall|x: int| 0 <= x < width implies #[trigger] graph@.rows[y][x]
                == part.rows[y][x] by {
                assert(graph@.cell(x, y) == state@.next_cell(x, y));
            }
        }
        assert(graph@ =~~= part);
    }
}

/// The generation that follows `current`, as a new grid; `current` is only
/// read.
pub fn step(current: &Gg) -> (next: Gg)
    ensures
        next@ == current@.step(),
{
    let mut next = Gg::new(current.width(), current.height());
    compute(&mut next, current);
    proof {
        current@.step().lemma_top_left_whole();
    }
    next
}

} // verus!
