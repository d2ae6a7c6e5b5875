//! The grid itself: a flat buffer of cells with bounds-checked access.

use vstd::prelude::*;
use crate::simulation::model::GridView;
use crate::simulation::model::lemma_offset_in_range;

verus! {

/// The one way in which access to a grid fails.
#[derive(Debug, Clone, Copy, PartialEq, Eq, Structural)]
pub enum GridError {
    /// A coordinate outside `[0, cols) × [0, rows)` was named.
    OutOfBounds,
}

/// The game's grid, held as one flat buffer of cells with `cols` as stride.
pub struct Grid {
    cols: usize,
    matrix: Vec<bool>,
    rows: usize,
}

impl View for Grid {
    type V = GridView;

    /// The model of this grid. Its cell sequence is cut to `rows × cols`, so
    /// the model of any grid is well formed; the type's invariant makes that
    /// sequence the buffer itself.
    closed spec fn view(&self) -> GridView {
        GridView {
            rows: self.rows as nat,
            cols: self.cols as nat,
            cells: Seq::new(
                (self.rows * self.cols) as nat,
                |i: int| i < self.matrix@.len() && self.matrix@[i],
            ),
        }
    }
}

/// The live cells of column `p` in the rows `y - 1`, `y` and `y + 1` that
/// lie before row `q`.
spec fn column_before(g: GridView, p: int, y: int, q: int) -> nat {
    (if y - 1 < q {
        g.population(p, y - 1)
    } else {
        0
    }) + (if y < q {
        g.population(p, y)
    } else {
        0
    }) + (if y + 1 < q {
        g.population(p, y + 1)
    } else {
        0
    })
}

/// The live cells of the 3×3 block centred at `(x, y)` in the columns that
/// lie before column `p`.
spec fn block_before(g: GridView, x: int, y: int, p: int) -> nat {
    (if x - 1 < p {
        column_before(g, x - 1, y, y + 2)
    } else {
        0
    }) + (if x < p {
        column_before(g, x, y, y + 2)
    } else {
        0
    }) + (if x + 1 < p {
        column_before(g, x + 1, y, y + 2)
    } else {
        0
    })
}

impl Clone for Grid {
    /// An independent grid in the same state: it shares no buffer with this one.
    fn clone(&self) -> (copy: Grid)
        ensures
            copy@ == self@,
    {
        proof {
            use_type_invariant(self);
        }
        let copy = Grid { cols: self.cols, matrix: self.matrix.clone(), rows: self.rows };
        assert(copy@.cells =~= self@.cells);
        copy
    }
}

impl Grid {
    #[verifier::type_invariant]
    spec fn buffer_fits(&self) -> bool {
        self.matrix@.len() == self.rows * self.cols <= usize::MAX
    }

    /// The model of every grid is well formed.
    pub proof fn lemma_view_wf(self)
        ensures
            self@.wf(),
    {
    }

    /// Create a new grid with the specified dimensions. All cells default to `false`.
    pub fn new(rows: usize, columns: usize) -> (grid: Grid)
        requires
            rows * columns <= usize::MAX,
        ensures
            grid@ == GridView::dead(rows as nat, columns as nat),
    {
        let grid = Grid { cols: columns, matrix: vec![false; rows * columns], rows: rows };
        assert(grid@.cells =~= GridView::dead(rows as nat, columns as nat).cells);
        grid
    }

    /// The number of columns in the grid.
    pub fn cols(&self) -> (cols: usize)
        ensures
            cols == self@.cols,
    {
        self.cols
    }

    /// The number of rows in the grid.
    pub fn rows(&self) -> (rows: usize)
        ensures
            rows == self@.rows,
    {
        self.rows
    }

    /// The state of the cell at `(x, y)`, which must name a cell of the grid.
    /// The one place where a coordinate becomes an offset into the buffer.
    pub(crate) fn cell(&self, x: usize, y: usize) -> (alive: bool)
        requires
            self@.in_bounds(x as int, y as int),
        ensures
            alive == self@.alive(x as int, y as int),
    {
        proof {
            use_type_invariant(self);
            lemma_offset_in_range(self@, x as int, y as int);
        }
        self.matrix[x + y * self.cols]
    }

    /// Replace the cell at `(x, y)`, which must name a cell of the grid.
    pub(crate) fn put(&mut self, x: usize, y: usize, value: bool)
        requires
            old(self)@.in_bounds(x as int, y as int),
        ensures
            final(self)@ == old(self)@.with_cell(x as int, y as int, value),
    {
        proof {
            use_type_invariant(&*self);
            lemma_offset_in_range(self@, x as int, y as int);
        }
        let ghost before = self@;
        let at: usize = x + y * self.cols;
        self.matrix[at] = value;
        assert(self@.cells =~= before.with_cell(x as int, y as int, value).cells);
    }

    /// The amount of neighbours a cell has: the live cells among the eight
    /// around `cell = (x, y)`, which must name a cell of the grid. Beyond the
    /// grid's edge there is nothing to count.
    pub fn neighbours(&self, cell: (usize, usize)) -> (total: u8)
        requires
            self@.in_bounds(cell.0 as int, cell.1 as int),
        ensures
            total == self@.neighbours(cell.0 as int, cell.1 as int),
            total <= 8,
    {
        let x: usize = cell.0;
        let y: usize = cell.1;
        let first_col: usize = if x > 0 { x - 1 } else { 0 };
        let last_col: usize = if x + 1 < self.cols { x + 1 } else { self.cols - 1 };
        let first_row: usize = if y > 0 { y - 1 } else { 0 };
        let last_row: usize = if y + 1 < self.rows { y + 1 } else { self.rows - 1 };

        let mut total: u8 = 0;
        let mut p: usize = first_col;
        while p <= last_col
            invariant
                self@.in_bounds(x as int, y as int),
                first_col == (if x > 0 { x - 1 } else { 0 }),
                last_col == (if x + 1 < self@.cols { x + 1 } else { self@.cols - 1 }),
                first_row == (if y > 0 { y - 1 } else { 0 }),
                last_row == (if y + 1 < self@.rows { y + 1 } else { self@.rows - 1 }),
                first_col <= p <= last_col + 1,
                total == block_before(self@, x as int, y as int, p as int),
            decreases last_col + 1 - p,
        {
            let mut q: usize = first_row;
            while q <= last_row
                invariant
                    self@.in_bounds(x as int, y as int),
                    first_col == (if x > 0 { x - 1 } else { 0 }),
                    last_col == (if x + 1 < self@.cols { x + 1 } else { self@.cols - 1 }),
                    first_row == (if y > 0 { y - 1 } else { 0 }),
                    last_row == (if y + 1 < self@.rows { y + 1 } else { self@.rows - 1 }),
                    first_col <= p <= last_col,
                    first_row <= q <= last_row + 1,
                    total == block_before(self@, x as int, y as int, p as int) + column_before(
                        self@,
                        p as int,
                        y as int,
                        q as int,
                    ),
                decreases last_row + 1 - q,
            {
                if self.cell(p, q) {
                    total += 1;
                }
                q += 1;
            }
            p += 1;
        }

        // Otherwise we would count the cell itself
        if self.cell(x, y) {
            total -= 1;
        }
        total
    }

    /// Read the cell at `cell = (x, y)`: whether it is alive, or
    /// `OutOfBounds` when the coordinate names no cell of the grid.
    pub fn get(&self, cell: (usize, usize)) -> (result: Result<bool, GridError>)
        ensures
            result == self@.read(cell.0 as int, cell.1 as int),
    {
        if cell.0 < self.cols && cell.1 < self.rows {
            Ok(self.cell(cell.0, cell.1))
        } else {
            Err(GridError::OutOfBounds)
        }
    }

    /// Write `value` to the cell at `cell = (x, y)`. When the coordinate
    /// names no cell of the grid, the grid is left as it was and the call
    /// fails with `OutOfBounds`.
    pub fn set(&mut self, cell: (usize, usize), value: bool) -> (result: Result<(), GridError>)
        ensures
            result == (if old(self)@.in_bounds(cell.0 as int, cell.1 as int) {
                Ok::<(), GridError>(())
            } else {
                Err::<(), GridError>(GridError::OutOfBounds)
            }),
            final(self)@ == (if old(self)@.in_bounds(cell.0 as int, cell.1 as int) {
                old(self)@.with_cell(cell.0 as int, cell.1 as int, value)
            } else {
                old(self)@
            }),
    {
        if cell.0 < self.cols && cell.1 < self.rows {
            self.put(cell.0, cell.1, value);
            Ok(())
        } else {
            Err(GridError::OutOfBounds)
        }
    }
}

} // verus!
