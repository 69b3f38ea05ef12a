//! The mathematical model that every contract of this crate is stated over.

use crate::grid_graph::{CellType, IndexError};
use vstd::prelude::*;

verus! {

/// The value of a grid: the length of a row, and the rows from top to bottom.
///
/// Coordinates are `(x, y)` with `x` the column and `y` the row. A board may
/// have no rows, or rows of length zero; it then has no cells.
#[verifier::ext_equal]
pub struct Board {
    pub width: nat,
    pub rows: Seq<Seq<CellType>>,
}

impl Board {
    pub open spec fn height(self) -> nat {
        self.rows.len()
    }

    /// Every row has `width` cells.
    pub open spec fn wf(self) -> bool {
        forall|y: int| 0 <= y < self.rows.len() ==> (#[trigger] self.rows[y]).len() == self.width
    }

    pub open spec fn in_bounds(self, x: int, y: int) -> bool {
        0 <= x < self.width && 0 <= y < self.rows.len()
    }

    pub open spec fn cell(self, x: int, y: int) -> CellType {
        self.rows[y][x]
    }

    /// The board of the given size whose cells all hold `val`.
    pub open spec fn filled(width: nat, height: nat, val: CellType) -> Board {
        Board { width, rows: Seq::new(height, |y: int| Seq::new(width, |x: int| val)) }
    }

    /// The board of the given size with no live cell.
    pub open spec fn empty(width: nat, height: nat) -> Board {
        Board::filled(width, height, CellType::EmptyCell)
    }

    /// This board with the cell at `(x, y)` replaced by `val`.
    pub open spec fn with_cell(self, x: int, y: int, val: CellType) -> Board {
        Board { width: self.width, rows: self.rows.update(y, self.rows[y].update(x, val)) }
    }

    /// This board with the cell at `(x, y)` flipped.
    pub open spec fn toggle(self, x: int, y: int) -> Board {
        self.with_cell(x, y, self.cell(x, y).toggled())
    }

    /// The error that an access at `(x, y)` is answered with: the column is
    /// judged first, then the row; `None` when the coordinate is on the board.
    pub open spec fn bounds_error(self, x: usize, y: usize) -> Option<IndexError> {
        if x >= self.width {
            Some(IndexError { index: x, limit: self.width as usize })
        } else if y >= self.height() {
            Some(IndexError { index: y, limit: self.height() as usize })
        } else {
            None
        }
    }

    /// `(nx, ny)` is a cell of the board next to `(x, y)`: in the 3x3 block
    /// around it, and not `(x, y)` itself.
    pub open spec fn is_neighbor(self, x: int, y: int, nx: int, ny: int) -> bool {
        &&& self.in_bounds(nx, ny)
        &&& x - 1 <= nx <= x + 1
        &&& y - 1 <= ny <= y + 1
        &&& (nx != x || ny != y)
    }

    pub open spec fn one_if_in_bounds(self, x: int, y: int) -> nat {
        if self.in_bounds(x, y) {
            1
        } else {
            0
        }
    }

    /// How many of the eight positions around `(x, y)` are on the board.
    pub open spec fn neighbor_count(self, x: int, y: int) -> nat {
        self.one_if_in_bounds(x - 1, y - 1) + self.one_if_in_bounds(x - 1, y)
            + self.one_if_in_bounds(x - 1, y + 1) + self.one_if_in_bounds(x, y - 1)
            + self.one_if_in_bounds(x, y + 1) + self.one_if_in_bounds(x + 1, y - 1)
            + self.one_if_in_bounds(x + 1, y) + self.one_if_in_bounds(x + 1, y + 1)
    }

    /// A cell is alive when it is on the board and not empty.
    pub open spec fn alive(self, x: int, y: int) -> bool {
        self.in_bounds(x, y) && self.cell(x, y) != CellType::EmptyCell
    }

    pub open spec fn one_if_alive(self, x: int, y: int) -> nat {
        if self.alive(x, y) {
            1
        } else {
            0
        }
    }

    /// How many of the eight positions around `(x, y)` hold a live cell.
    /// Positions off the board count as not alive: the board does not wrap.
    pub open spec fn live_neighbors(self, x: int, y: int) -> nat {
        self.one_if_alive(x - 1, y - 1) + self.one_if_alive(x - 1, y)
            + self.one_if_alive(x - 1, y + 1) + self.one_if_alive(x, y - 1)
            + self.one_if_alive(x, y + 1) + self.one_if_alive(x + 1, y - 1)
            + self.one_if_alive(x + 1, y) + self.one_if_alive(x + 1, y + 1)
    }

    /// The state of `(x, y)` in the next generation: a live cell survives
    /// with two or three live neighbours, a dead one is born with three.
    pub open spec fn next_cell(self, x: int, y: int) -> CellType {
        let n = self.live_neighbors(x, y);
        if self.alive(x, y) {
            if n == 2 || n == 3 {
                CellType::FullCell
            } else {
                CellType::EmptyCell
            }
        } else {
            if n == 3 {
                CellType::FullCell
            } else {
                CellType::EmptyCell
            }
        }
    }

    /// The next generation of the whole board.
    pub open spec fn step(self) -> Board {
        Board {
            width: self.width,
            rows: Seq::new(
                self.height(),
                |y: int| Seq::new(self.width, |x: int| self.next_cell(x, y)),
            ),
        }
    }

    /// The upper left part of this board, of the given size.
    pub open spec fn top_left(self, width: nat, height: nat) -> Board {
        Board { width, rows: Seq::new(height, |y: int| Seq::new(width, |x: int| self.cell(x, y))) }
    }

    /// The upper left part of a board that has the size of the board is the
    /// board itself.
    pub proof fn lemma_top_left_whole(self)
        requires
            self.wf(),
        ensures
            self.top_left(self.width, self.height()) == self,
    {
        assert(self.top_left(self.width, self.height()) =~~= self);
    }

    /// The place of `(x, y)` in row-major order.
    pub open spec fn index_of(self, x: int, y: int) -> int {
        y * self.width + x
    }

    /// The coordinate that follows `(x, y)` in row-major order.
    pub open spec fn successor(self, x: int, y: int) -> (int, int) {
        if x + 1 < self.width {
            (x + 1, y)
        } else {
            (0, y + 1)
        }
    }

    /// In row-major order the cell at `(x, y)` stands at `index_of(x, y)`,
    /// and the coordinate after it one place further on.
    pub proof fn lemma_row_major(self, x: int, y: int)
        requires
            self.in_bounds(x, y),
        ensures
            0 <= self.index_of(x, y) < self.row_major().len(),
            self.row_major()[self.index_of(x, y)] == self.cell(x, y),
            self.index_of(self.successor(x, y).0, self.successor(x, y).1) == self.index_of(x, y)
                + 1,
    {
        let w = self.width as int;
        let h = self.height() as int;
        let k = y * w + x;
        assert(0 <= k < w * h && (y + 1) * w == y * w + w) by (nonlinear_arith)
            requires
                0 <= x < w,
                0 <= y < h,
                k == y * w + x,
        ;
        vstd::arithmetic::div_mod::lemma_fundamental_div_mod_converse(k, w, y, x);
    }

    /// `(x, y)` comes before `(cx, cy)` in row-major order.
    pub open spec fn precedes(x: int, y: int, cx: int, cy: int) -> bool {
        y < cy || (y == cy && x < cx)
    }

    /// Of two coordinates within the columns of the board, the one that
    /// comes first in row-major order has the smaller place.
    pub proof fn lemma_index_order(self, x: int, y: int, cx: int, cy: int)
        requires
            0 <= x < self.width,
            0 <= cx < self.width,
        ensures
            Board::precedes(x, y, cx, cy) <==> self.index_of(x, y) < self.index_of(cx, cy),
    {
        let w = self.width as int;
        if y < cy {
            assert(y * w + w <= cy * w) by (nonlinear_arith)
                requires
                    y + 1 <= cy,
                    w >= 0,
            ;
        }
        if cy < y {
            assert(cy * w + w <= y * w) by (nonlinear_arith)
                requires
                    cy + 1 <= y,
                    w >= 0,
            ;
        }
    }

    /// This board with its cells, in row-major order, set to what `tosses`
    /// say: full for `true`, empty for `false`. Cells beyond the end of
    /// `tosses` stay as they are.
    pub open spec fn assigned(self, tosses: Seq<bool>) -> Board {
        Board {
            width: self.width,
            rows: Seq::new(
                self.height(),
                |y: int|
                    Seq::new(
                        self.width,
                        |x: int|
                            if self.index_of(x, y) < tosses.len() {
                                if tosses[self.index_of(x, y)] {
                                    CellType::FullCell
                                } else {
                                    CellType::EmptyCell
                                }
                            } else {
                                self.cell(x, y)
                            },
                    ),
            ),
        }
    }

    /// All cells, row after row, each row from left to right.
    pub open spec fn row_major(self) -> Seq<CellType> {
        Seq::new(
            self.width * self.height(),
            |k: int| self.cell(k % (self.width as int), k / (self.width as int)),
        )
    }
}

} // verus!
