//! The grid: a fixed-size, dense, row-major container of cells.

use crate::board::Board;
use crate::text::{decimal, push_decimal};
use vstd::prelude::*;
use vstd::string::StringExecFns;

verus! {

/// The state of one cell.
#[derive(Clone, Copy, PartialEq, Eq, Structural, Debug)]
pub enum CellType {
    EmptyCell,
    FullCell,
}

impl CellType {
    /// The other of the two states.
    pub open spec fn toggled(self) -> CellType {
        match self {
            CellType::FullCell => CellType::EmptyCell,
            CellType::EmptyCell => CellType::FullCell,
        }
    }
}

impl Default for CellType {
    fn default() -> (cell: CellType)
        ensures
            cell == CellType::EmptyCell,
    {
        CellType::EmptyCell
    }
}

/// A coordinate that lies off the grid: the offending index, and the size of
/// the axis it was held against.
#[derive(Clone, Copy, PartialEq, Eq, Structural, Debug)]
pub struct IndexError {
    pub index: usize,
    pub limit: usize,
}

impl IndexError {
    /// The error in words, with both numbers in decimal.
    pub fn message(&self) -> (text: String)
        ensures
            text@ == "Index "@ + decimal(self.index as nat) + " out of bounds for axis of size "@
                + decimal(self.limit as nat),
    {
        let mut text = String::from_str("Index ");
        push_decimal(&mut text, self.index);
        text.append(" out of bounds for axis of size ");
        push_decimal(&mut text, self.limit);
        text
    }
}

/// A grid of `width` columns and `height` rows. Its size is fixed when it is
/// made; its value is the [`Board`] that `@` gives.
pub struct Gg {
    array: Vec<Vec<CellType>>,
    width: usize,
    height: usize,
}

impl View for Gg {
    type V = Board;

    closed spec fn view(&self) -> Board {
        Board {
            width: self.width as nat,
            rows: Seq::new(self.array.len() as nat, |y: int| self.array[y]@),
        }
    }
}

/// Hands out the cell at column `i` of row `j`. The rows keep their number
/// and their lengths, whatever is written through the handle.
fn cell_in_rows(rows: &mut Vec<Vec<CellType>>, i: usize, j: usize) -> (cell: &mut CellType)
    requires
        j < old(rows).len(),
        i < old(rows)[j as int].len(),
    ensures
        *cell == old(rows)[j as int][i as int],
        final(rows).len() == old(rows).len(),
        forall|y: int|
            0 <= y < old(rows).len() ==> (#[trigger] final(rows)[y]).len() == old(rows)[y].len(),
        forall|y: int| 0 <= y < old(rows).len() && y != j ==> final(rows)[y] == old(rows)[y],
        final(rows)[j as int]@ == old(rows)[j as int]@.update(i as int, *final(cell)),
    no_unwind
{
    &mut rows[j][i]
}

/// The in-range value among `i - 1`, `i`, `i + 1` that `d` (0, 1 or 2) picks.
fn shifted(i: usize, d: usize, limit: usize) -> (r: Option<usize>)
    requires
        d < 3,
    ensures
        match r {
            Some(v) => v == i + d - 1 && v < limit,
            None => !(0 <= i + d - 1 < limit),
        },
{
    if d == 0 {
        if i >= 1 && i - 1 < limit {
            Some(i - 1)
        } else {
            None
        }
    } else if d == 1 {
        if i < limit {
            Some(i)
        } else {
            None
        }
    } else {
        if i < limit && i + 1 < limit {
            Some(i + 1)
        } else {
            None
        }
    }
}

/// The place of `(nx, ny)` in the 3x3 block around `(x, y)`, counted column
/// by column from the block's first corner.
spec fn block_index(x: int, y: int, nx: int, ny: int) -> int {
    3 * (nx - x + 1) + (ny - y + 1)
}

/// How many of the first `p` places of the block around `(x, y)` are
/// neighbours of `(x, y)` on `board`.
spec fn neighbors_before(board: Board, x: int, y: int, p: int) -> nat
    decreases p,
{
    if p <= 0 {
        0
    } else {
        let q = p - 1;
        neighbors_before(board, x, y, q) + if board.is_neighbor(
            x,
            y,
            x + q / 3 - 1,
            y + q % 3 - 1,
        ) {
            1nat
        } else {
            0nat
        }
    }
}

proof fn lemma_neighbors_before_all(board: Board, x: int, y: int)
    ensures
        neighbors_before(board, x, y, 9) == board.neighbor_count(x, y),
{
    reveal_with_fuel(neighbors_before, 10);
}

impl Gg {
    #[verifier::type_invariant]
    spec fn well_formed(&self) -> bool {
        &&& self.array.len() == self.height
        &&& forall|y: int|
            0 <= y < self.array.len() ==> (#[trigger] self.array[y]).len() == self.width
    }

    /// A grid of the given size with every cell empty.
    pub fn new(width: usize, height: usize) -> (grid: Gg)
        ensures
            grid@ == Board::empty(width as nat, height as nat),
    {
        let mut array: Vec<Vec<CellType>> = Vec::new();
        for j in 0..height
            invariant
                array.len() == j,
                forall|y: int|
                    0 <= y < j ==> (#[trigger] array[y])@ == Seq::new(
                        width as nat,
                        |x: int| CellType::EmptyCell,
                    ),
        {
            let mut row: Vec<CellType> = Vec::new();
            for i in 0..width
                invariant
                    row.len() == i,
                    forall|x: int| 0 <= x < i ==> row[x] == CellType::EmptyCell,
            {
                row.push(CellType::EmptyCell);
            }
            assert(row@ =~= Seq::new(width as nat, |x: int| CellType::EmptyCell));
            array.push(row);
        }
        let grid = Gg { array, width, height };
        assert(grid@ =~~= Board::empty(width as nat, height as nat));
        grid
    }

    /// The cells of the grid next to `(i, j)`: each one once, none of them
    /// `(i, j)` itself, and none missing, column by column and downwards in
    /// each column. `(i, j)` need not be on the grid.
    pub fn neighbors(&self, i: usize, j: usize) -> (cells: Vec<(usize, usize)>)
        ensures
            cells@.no_duplicates(),
            forall|k: int, l: int|
                0 <= k < l < cells.len() ==> (#[trigger] cells[k]).0 < (#[trigger] cells[l]).0 || (
                cells[k].0 == cells[l].0 && cells[k].1 < cells[l].1),
            forall|k: int|
                0 <= k < cells.len() ==> self@.is_neighbor(
                    i as int,
                    j as int,
                    (#[trigger] cells[k]).0 as int,
                    cells[k].1 as int,
                ),
            forall|nx: int, ny: int| #[trigger]
                self@.is_neighbor(i as int, j as int, nx, ny) ==> cells@.contains(
                    (nx as usize, ny as usize),
                ),
            cells.len() == self@.neighbor_count(i as int, j as int),
    {
        proof {
            use_type_invariant(self);
        }
        let ghost board = self@;
        let ghost x = i as int;
        let ghost y = j as int;
        let mut combinations: Vec<(usize, usize)> = Vec::with_capacity(8);
        for p in 0..9usize
            invariant
                board == self@,
                x == i,
                y == j,
                board.width == self.width,
                board.height() == self.height,
                combinations.len() == neighbors_before(board, x, y, p as int),
                forall|k: int|
                    0 <= k < combinations.len() ==> {
                        &&& board.is_neighbor(
                            x,
                            y,
                            (#[trigger] combinations[k]).0 as int,
                            combinations[k].1 as int,
                        )
                        &&& block_index(x, y, combinations[k].0 as int, combinations[k].1 as int)
                            < p
                    },
                forall|k: int, l: int|
                    0 <= k < l < combinations.len() ==> block_index(
                        x,
                        y,
                        (#[trigger] combinations[k]).0 as int,
                        combinations[k].1 as int,
                    ) < block_index(
                        x,
                        y,
                        (#[trigger] combinations[l]).0 as int,
                        combinations[l].1 as int,
                    ),
                forall|nx: int, ny: int|
                    (#[trigger] board.is_neighbor(x, y, nx, ny)) && block_index(x, y, nx, ny) < p
                        ==> combinations@.contains((nx as usize, ny as usize)),
        {
            let ghost before = combinations@;
            let column = shifted(i, p / 3, self.width);
            let row = shifted(j, p % 3, self.height);
            if let (Some(ni), Some(nj)) = (column, row) {
                if ni != i || nj != j {
                    combinations.push((ni, nj));
                    assert(combinations@[before.len() as int] == (ni, nj));
                }
            }
            assert forall|nx: int, ny: int|
                (#[trigger] board.is_neighbor(x, y, nx, ny)) && block_index(x, y, nx, ny) < p
                    + 1 implies combinations@.contains((nx as usize, ny as usize)) by {
                if block_index(x, y, nx, ny) < p {
                    let k = choose|k: int|
                        0 <= k < before.len() && before[k] == (nx as usize, ny as usize);
                    assert(combinations@[k] == (nx as usize, ny as usize));
                } else {
                    assert(nx == x + p / 3 - 1 && ny == y + p % 3 - 1);
                    assert(combinations@[before.len() as int] == (nx as usize, ny as usize));
                }
            }
        }
        proof {
            lemma_neighbors_before_all(board, x, y);
            assert forall|k: int, l: int|
                0 <= k < combinations.len() && 0 <= l < combinations.len() && k
                    != l implies combinations[k] != combinations[l] by {
                if k < l {
                    assert(block_index(x, y, combinations[k].0 as int, combinations[k].1 as int)
                        < block_index(x, y, combinations[l].0 as int, combinations[l].1 as int));
                } else {
                    assert(block_index(x, y, combinations[l].0 as int, combinations[l].1 as int)
                        < block_index(x, y, combinations[k].0 as int, combinations[k].1 as int));
                }
            }
        }
        combinations
    }

    pub fn width(&self) -> (w: usize)
        ensures
            w == self@.width,
            self@.wf(),
    {
        proof {
            use_type_invariant(self);
        }
        self.width
    }

    pub fn height(&self) -> (h: usize)
        ensures
            h == self@.height(),
            self@.wf(),
    {
        proof {
            use_type_invariant(self);
        }
        self.height
    }

    /// The cell at `(i, j)`, which must be on the grid.
    pub fn get_val(&self, i: usize, j: usize) -> (cell: CellType)
        requires
            self@.in_bounds(i as int, j as int),
        ensures
            cell == self@.cell(i as int, j as int),
    {
        proof {
            use_type_invariant(self);
        }
        self.array[j][i]
    }

    /// Overwrites the cell at `(i, j)`, which must be on the grid.
    pub fn set_val(&mut self, i: usize, j: usize, val: CellType)
        requires
            old(self)@.in_bounds(i as int, j as int),
        ensures
            final(self)@ == old(self)@.with_cell(i as int, j as int, val),
    {
        let cell = self.cell_mut(i, j);
        *cell = val;
    }

    /// An exclusive handle on the cell at `(i, j)`, which must be on the
    /// grid. The grid ends up as it was but for what the handle is left with.
    pub fn cell_mut(&mut self, i: usize, j: usize) -> (cell: &mut CellType)
        requires
            old(self)@.in_bounds(i as int, j as int),
        ensures
            *cell == old(self)@.cell(i as int, j as int),
            final(self)@ == old(self)@.with_cell(i as int, j as int, *final(cell)),
    {
        proof {
            use_type_invariant(&*self);
        }
        cell_in_rows(&mut self.array, i, j)
    }

    /// Whether `(i, j)` is on the grid, and if not, on which axis it fails.
    fn check_bounds(&self, i: usize, j: usize) -> (r: Result<(), IndexError>)
        ensures
            self@.wf(),
            match r {
                Ok(()) => self@.bounds_error(i, j) is None,
                Err(e) => self@.bounds_error(i, j) == Some(e),
            },
    {
        proof {
            use_type_invariant(self);
        }
        if i >= self.width {
            return Err(IndexError { index: i, limit: self.width });
        }
        if j >= self.height {
            return Err(IndexError { index: j, limit: self.height });
        }
        Ok(())
    }

    /// The cell at `(i, j)`, or the error that says which index is off the
    /// grid.
    pub fn get_checked(&self, i: usize, j: usize) -> (r: Result<CellType, IndexError>)
        ensures
            match r {
                Ok(cell) => self@.in_bounds(i as int, j as int) && cell == self@.cell(
                    i as int,
                    j as int,
                ),
                Err(e) => self@.bounds_error(i, j) == Some(e),
            },
    {
        match self.check_bounds(i, j) {
            Ok(()) => Ok(self.get_val(i, j)),
            Err(e) => Err(e),
        }
    }

    /// Overwrites the cell at `(i, j)`; off the grid, leaves the grid as it
    /// is and says which index is at fault.
    pub fn set_checked(&mut self, i: usize, j: usize, val: CellType) -> (r: Result<
        (),
        IndexError,
    >)
        ensures
            match r {
                Ok(()) => old(self)@.in_bounds(i as int, j as int) && final(self)@ == old(
                    self,
                )@.with_cell(i as int, j as int, val),
                Err(e) => old(self)@.bounds_error(i, j) == Some(e) && final(self)@ == old(self)@,
            },
    {
        match self.check_bounds(i, j) {
            Ok(()) => {
                self.set_val(i, j, val);
                Ok(())
            },
            Err(e) => Err(e),
        }
    }

    /// Flips the cell at `(i, j)` between empty and full; off the grid,
    /// leaves the grid as it is and says which index is at fault.
    pub fn toggle_val(&mut self, i: usize, j: usize) -> (r: Result<(), IndexError>)
        ensures
            match r {
                Ok(()) => old(self)@.in_bounds(i as int, j as int) && final(self)@ == old(
                    self,
                )@.toggle(i as int, j as int),
                Err(e) => old(self)@.bounds_error(i, j) == Some(e) && final(self)@ == old(self)@,
            },
    {
        proof {
            use_type_invariant(&*self);
        }
        if i >= self.width {
            return Err(IndexError { index: i, limit: self.width });
        }
        if j >= self.height {
            return Err(IndexError { index: j, limit: self.height });
        }
        let val = self.get_val(i, j);
        self.set_val(
            i,
            j,
            match val {
                CellType::FullCell => CellType::EmptyCell,
                CellType::EmptyCell => CellType::FullCell,
            },
        );
        Ok(())
    }

    /// Starts a walk that hands out every cell for writing. When the walk is
    /// dropped the grid is what the walk left.
    pub fn iter_mut(&mut self) -> (walk: GgIteratorMut<'_>)
        ensures
            walk.gg@ == old(self)@,
            walk.gg@.wf(),
            walk.index_w == 0,
            walk.index_h == 0,
            final(self)@ == final(walk.gg)@,
    {
        proof {
            use_type_invariant(&*self);
        }
        GgIteratorMut { gg: self, index_w: 0, index_h: 0 }
    }

    /// Starts a walk over the cells in row-major order.
    pub fn iter(&self) -> (walk: GgIterator<'_>)
        ensures
            walk.grid() == self@,
            walk.grid().wf(),
            walk.position() == 0,
    {
        proof {
            use_type_invariant(self);
        }
        GgIterator { gg: self, index_w: 0, index_h: 0 }
    }
}

impl Clone for Gg {
    /// An independent grid of the same value.
    fn clone(&self) -> (copy: Gg)
        ensures
            copy@ == self@,
    {
        proof {
            use_type_invariant(self);
        }
        let mut array: Vec<Vec<CellType>> = Vec::new();
        for j in 0..self.height
            invariant
                self.array.len() == self.height,
                forall|y: int|
                    0 <= y < self.array.len() ==> (#[trigger] self.array[y]).len() == self.width,
                array.len() == j,
                forall|y: int| 0 <= y < j ==> (#[trigger] array[y])@ == self.array[y]@,
        {
            let mut row: Vec<CellType> = Vec::new();
            for i in 0..self.width
                invariant
                    j < self.array.len(),
                    self.array[j as int].len() == self.width,
                    row.len() == i,
                    forall|x: int| 0 <= x < i ==> row[x] == self.array[j as int][x],
            {
                row.push(self.array[j][i]);
            }
            assert(row@ =~= self.array[j as int]@);
            array.push(row);
        }
        let copy = Gg { array, width: self.width, height: self.height };
        assert(copy@ =~~= self@);
        copy
    }
}

/// A read-only walk over the cells of a grid in row-major order.
pub struct GgIterator<'b> {
    gg: &'b Gg,
    index_w: usize,
    index_h: usize,
}

/// A walk over the cells of a grid in row-major order that hands out, one at
/// a time, an exclusive handle on each cell.
///
/// `gg` is the grid being walked and `(index_w, index_h)` the coordinate that
/// `next` hands out next.
pub struct GgIteratorMut<'a> {
    pub gg: &'a mut Gg,
    pub index_w: usize,
    pub index_h: usize,
}

impl<'b> GgIterator<'b> {
    #[verifier::type_invariant]
    spec fn well_formed(&self) -> bool {
        &&& self.gg.well_formed()
        &&& self.index_h <= self.gg.height
        &&& self.index_w == 0 || self.index_w < self.gg.width
        &&& self.index_h == self.gg.height ==> self.index_w == 0
    }

    /// The value of the grid that is walked.
    pub closed spec fn grid(&self) -> Board {
        self.gg@
    }

    /// How many cells the walk has handed out.
    pub closed spec fn position(&self) -> nat {
        (self.index_h * self.gg.width + self.index_w) as nat
    }

    /// The next cell in row-major order, or `None` once every cell has been
    /// handed out.
    pub fn next(&mut self) -> (r: Option<CellType>)
        ensures
            final(self).grid() == old(self).grid(),
            match r {
                Some(cell) => {
                    &&& old(self).position() < old(self).grid().row_major().len()
                    &&& cell == old(self).grid().row_major()[old(self).position() as int]
                    &&& final(self).position() == old(self).position() + 1
                },
                None => {
                    &&& old(self).position() == old(self).grid().row_major().len()
                    &&& final(self).position() == old(self).position()
                },
            },
    {
        proof {
            use_type_invariant(&*self);
            let board = self.gg@;
            if board.in_bounds(self.index_w as int, self.index_h as int) {
                board.lemma_row_major(self.index_w as int, self.index_h as int);
            } else {
                assert(self.index_w == 0);
                assert(self.index_h * self.gg.width == board.width * board.height())
                    by (nonlinear_arith)
                    requires
                        self.index_h == board.height() || self.gg.width == 0,
                        board.width == self.gg.width,
                ;
            }
        }
        if self.index_h >= self.gg.height || self.index_w >= self.gg.width {
            return None;
        }
        let cell = self.gg.get_val(self.index_w, self.index_h);
        if self.index_w + 1 < self.gg.width {
            self.index_w = self.index_w + 1;
        } else {
            self.index_w = 0;
            self.index_h = self.index_h + 1;
        }
        Some(cell)
    }
}

impl<'a> GgIteratorMut<'a> {
    /// A handle on the cell at `(index_w, index_h)`, with the walk moved on
    /// to the coordinate that follows in row-major order; `None`, and nothing
    /// changed, when that coordinate is off the grid. The grid ends up as it
    /// was but for what the handle is left with.
    pub fn next(&mut self) -> (r: Option<&mut CellType>)
        ensures
            *final(final(self).gg) == *final(old(self).gg),
            match r {
                Some(cell) => {
                    let x = old(self).index_w as int;
                    let y = old(self).index_h as int;
                    &&& old(self).gg@.in_bounds(x, y)
                    &&& *cell == old(self).gg@.cell(x, y)
                    &&& final(self).gg@ == old(self).gg@.with_cell(x, y, *final(cell))
                    &&& (final(self).index_w as int, final(self).index_h as int) == old(
                        self,
                    ).gg@.successor(x, y)
                },
                None => {
                    &&& !old(self).gg@.in_bounds(old(self).index_w as int, old(self).index_h as int)
                    &&& final(self).gg@ == old(self).gg@
                    &&& final(self).index_w == old(self).index_w
                    &&& final(self).index_h == old(self).index_h
                },
            },
    {
        let width = self.gg.width();
        let height = self.gg.height();
        if self.index_h >= height || self.index_w >= width {
            return None;
        }
        let i = self.index_w;
        let j = self.index_h;
        if i + 1 < width {
            self.index_w = i + 1;
        } else {
            self.index_w = 0;
            self.index_h = j + 1;
        }
        Some(self.gg.cell_mut(i, j))
    }
}

} // verus!
