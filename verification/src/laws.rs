//! What holds of every board: facts about neighbourhoods, toggling and the
//! generation rule, each proved from the definitions in [`crate::board`].

use crate::board::Board;
use vstd::prelude::*;

verus! {

/// `(x, y)` lies in the first or last column, and in the first or last row.
pub open spec fn is_corner(board: Board, x: int, y: int) -> bool {
    (x == 0 || x == board.width - 1) && (y == 0 || y == board.height() - 1)
}

/// `(x, y)` lies on the rim of the board, but in none of its corners.
pub open spec fn is_edge(board: Board, x: int, y: int) -> bool {
    (x == 0 || x == board.width - 1) != (y == 0 || y == board.height() - 1)
}

/// `(x, y)` lies off the rim of the board.
pub open spec fn is_interior(board: Board, x: int, y: int) -> bool {
    0 < x < board.width - 1 && 0 < y < board.height() - 1
}

/// On a board of at least two columns and two rows, a corner cell has three
/// neighbours, any other cell of the rim has five, and a cell off the rim has
/// eight.
pub proof fn lemma_neighbor_count_by_place(board: Board, x: int, y: int)
    requires
        board.in_bounds(x, y),
        board.width >= 2,
        board.height() >= 2,
    ensures
        is_corner(board, x, y) ==> board.neighbor_count(x, y) == 3,
        is_edge(board, x, y) ==> board.neighbor_count(x, y) == 5,
        is_interior(board, x, y) ==> board.neighbor_count(x, y) == 8,
        is_corner(board, x, y) || is_edge(board, x, y) || is_interior(board, x, y),
{
}

/// Two boards of one shape on which the same cells are alive are one board.
pub proof fn lemma_same_alive_same_board(a: Board, b: Board)
    requires
        a.wf(),
        b.wf(),
        a.width == b.width,
        a.height() == b.height(),
        forall|x: int, y: int| a.in_bounds(x, y) ==> (#[trigger] a.alive(x, y) <==> b.alive(x, y)),
    ensures
        a == b,
{
    assert forall|y: int| 0 <= y < a.height() implies #[trigger] a.rows[y] =~= b.rows[y] by {
        assert forall|x: int| 0 <= x < a.width implies #[trigger] a.rows[y][x] == b.rows[y][x] by {
            assert(a.alive(x, y) <==> b.alive(x, y));
            assert(a.cell(x, y) == a.rows[y][x]);
            assert(b.cell(x, y) == b.rows[y][x]);
        }
    }
    assert(a =~~= b);
}

/// The next generation has the shape of the board it comes from, and each of
/// its cells is what the rule gives for that cell.
pub proof fn lemma_step_cells(board: Board)
    ensures
        board.step().wf(),
        board.step().width == board.width,
        board.step().height() == board.height(),
        forall|x: int, y: int|
            board.in_bounds(x, y) ==> #[trigger] board.step().cell(x, y) == board.next_cell(x, y),
{
}

/// Toggling a cell of the board twice gives the board back.
pub proof fn lemma_toggle_twice(board: Board, x: int, y: int)
    requires
        board.wf(),
        board.in_bounds(x, y),
    ensures
        board.toggle(x, y).toggle(x, y) == board,
{
    assert(board.toggle(x, y).toggle(x, y) =~~= board);
}

/// Toggling a cell changes that cell and no other.
pub proof fn lemma_toggle_one_cell(board: Board, x: int, y: int, ox: int, oy: int)
    requires
        board.wf(),
        board.in_bounds(x, y),
        board.in_bounds(ox, oy),
    ensures
        board.toggle(x, y).wf(),
        board.toggle(x, y).width == board.width,
        board.toggle(x, y).height() == board.height(),
        board.toggle(x, y).alive(x, y) == !board.alive(x, y),
        (ox != x || oy != y) ==> board.toggle(x, y).cell(ox, oy) == board.cell(ox, oy),
{
}

/// Toggles of two different cells give the same board in either order, so
/// writers that take turns on disjoint cells leave the board that each of
/// their toggles, applied once, makes of it.
pub proof fn lemma_toggles_commute(board: Board, x: int, y: int, ox: int, oy: int)
    requires
        board.wf(),
        board.in_bounds(x, y),
        board.in_bounds(ox, oy),
        x != ox || y != oy,
    ensures
        board.toggle(x, y).toggle(ox, oy) == board.toggle(ox, oy).toggle(x, y),
{
    assert(board.toggle(x, y).toggle(ox, oy) =~~= board.toggle(ox, oy).toggle(x, y));
}

/// A board with no live cell stays as it is.
pub proof fn lemma_empty_is_fixed(width: nat, height: nat)
    ensures
        Board::empty(width, height).step() == Board::empty(width, height),
{
    let board = Board::empty(width, height);
    lemma_step_cells(board);
    assert forall|x: int, y: int| board.in_bounds(x, y) implies (#[trigger] board.step().alive(
        x,
        y,
    ) <==> board.alive(x, y)) by {
        assert(board.step().cell(x, y) == board.next_cell(x, y));
    }
    lemma_same_alive_same_board(board.step(), board);
}

/// The live cells of `board` are the four of the 2x2 block whose first
/// corner is `(bx, by)`, and the block lies on the board.
pub open spec fn is_block(board: Board, bx: int, by: int) -> bool {
    &&& board.wf()
    &&& board.in_bounds(bx, by)
    &&& board.in_bounds(bx + 1, by + 1)
    &&& forall|x: int, y: int|
        board.in_bounds(x, y) ==> (#[trigger] board.alive(x, y) <==> (bx <= x <= bx + 1 && by <= y
            <= by + 1))
}

/// A 2x2 block with nothing else alive stays as it is, wherever on the board
/// it lies.
pub proof fn lemma_block_is_fixed(board: Board, bx: int, by: int)
    requires
        is_block(board, bx, by),
    ensures
        board.step() == board,
{
    lemma_step_cells(board);
    assert forall|x: int, y: int| board.in_bounds(x, y) implies (#[trigger] board.step().alive(
        x,
        y,
    ) <==> board.alive(x, y)) by {
        assert(board.step().cell(x, y) == board.next_cell(x, y));
    }
    lemma_same_alive_same_board(board.step(), board);
}

/// The live cells of `board` are the three in row `cy` around `(cx, cy)`,
/// and the 3x3 block around `(cx, cy)` lies on the board.
pub open spec fn is_row_blinker(board: Board, cx: int, cy: int) -> bool {
    &&& board.wf()
    &&& board.in_bounds(cx - 1, cy - 1)
    &&& board.in_bounds(cx + 1, cy + 1)
    &&& forall|x: int, y: int|
        board.in_bounds(x, y) ==> (#[trigger] board.alive(x, y) <==> (y == cy && cx - 1 <= x <= cx
            + 1))
}

/// The live cells of `board` are the three in column `cx` around `(cx, cy)`,
/// and the 3x3 block around `(cx, cy)` lies on the board.
pub open spec fn is_column_blinker(board: Board, cx: int, cy: int) -> bool {
    &&& board.wf()
    &&& board.in_bounds(cx - 1, cy - 1)
    &&& board.in_bounds(cx + 1, cy + 1)
    &&& forall|x: int, y: int|
        board.in_bounds(x, y) ==> (#[trigger] board.alive(x, y) <==> (x == cx && cy - 1 <= y <= cy
            + 1))
}

/// A blinker lying in a row stands in a column one generation later.
pub proof fn lemma_row_blinker_turns(board: Board, cx: int, cy: int)
    requires
        is_row_blinker(board, cx, cy),
    ensures
        is_column_blinker(board.step(), cx, cy),
{
    lemma_step_cells(board);
    assert forall|x: int, y: int| board.in_bounds(x, y) implies (#[trigger] board.step().alive(
        x,
        y,
    ) <==> (x == cx && cy - 1 <= y <= cy + 1)) by {
        assert(board.step().cell(x, y) == board.next_cell(x, y));
    }
}

/// A blinker standing in a column lies in a row one generation later.
pub proof fn lemma_column_blinker_turns(board: Board, cx: int, cy: int)
    requires
        is_column_blinker(board, cx, cy),
    ensures
        is_row_blinker(board.step(), cx, cy),
{
    lemma_step_cells(board);
    assert forall|x: int, y: int| board.in_bounds(x, y) implies (#[trigger] board.step().alive(
        x,
        y,
    ) <==> (y == cy && cx - 1 <= x <= cx + 1)) by {
        assert(board.step().cell(x, y) == board.next_cell(x, y));
    }
}

/// A blinker away from the rim has period two: one generation changes it,
/// two give it back.
pub proof fn lemma_blinker_period_two(board: Board, cx: int, cy: int)
    requires
        is_row_blinker(board, cx, cy),
    ensures
        board.step() != board,
        board.step().step() == board,
{
    lemma_row_blinker_turns(board, cx, cy);
    lemma_column_blinker_turns(board.step(), cx, cy);
    lemma_step_cells(board);
    lemma_step_cells(board.step());
    let twice = board.step().step();
    assert forall|x: int, y: int| twice.in_bounds(x, y) implies (#[trigger] twice.alive(x, y)
        <==> board.alive(x, y)) by {
    }
    lemma_same_alive_same_board(twice, board);
    assert(board.alive(cx - 1, cy));
    assert(!board.step().alive(cx - 1, cy));
}

} // verus!
