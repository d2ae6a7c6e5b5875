//! The mathematical model of a grid: its dimensions and a flat sequence of
//! cells, with the neighbour count and the transition rule stated over
//! coordinates.

use vstd::prelude::*;
use crate::simulation::grid::GridError;

verus! {

/// What a grid is, mathematically: `rows × cols` cells in one flat sequence,
/// the cell at `(x, y)` standing at offset `x + y * cols`.
pub struct GridView {
    pub rows: nat,
    pub cols: nat,
    pub cells: Seq<bool>,
}

impl GridView {
    /// The cell buffer holds exactly one cell per coordinate.
    pub open spec fn wf(self) -> bool {
        self.cells.len() == self.rows * self.cols
    }

    /// The grid of the given dimensions in which every cell is dead.
    pub open spec fn dead(rows: nat, cols: nat) -> GridView {
        GridView { rows, cols, cells: Seq::new(rows * cols, |i: int| false) }
    }

    /// `(x, y)` names a cell of the grid.
    pub open spec fn in_bounds(self, x: int, y: int) -> bool {
        0 <= x < self.cols && 0 <= y < self.rows
    }

    /// Where the cell at `(x, y)` stands in the flat sequence.
    pub open spec fn offset(self, x: int, y: int) -> int {
        x + y * self.cols
    }

    /// The cell at `(x, y)` is alive. A coordinate outside the grid names no
    /// cell, and counts as dead: the grid has no wraparound.
    pub open spec fn alive(self, x: int, y: int) -> bool {
        self.in_bounds(x, y) && self.cells[self.offset(x, y)]
    }

    /// What reading the coordinate `(x, y)` gives: the cell's state inside
    /// the grid, the out-of-bounds error outside it.
    pub open spec fn read(self, x: int, y: int) -> Result<bool, GridError> {
        if self.in_bounds(x, y) {
            Ok(self.alive(x, y))
        } else {
            Err(GridError::OutOfBounds)
        }
    }

    /// The grid with the cell at `(x, y)` replaced by `value`.
    pub open spec fn with_cell(self, x: int, y: int, value: bool) -> GridView {
        GridView { cells: self.cells.update(self.offset(x, y), value), ..self }
    }

    /// What the coordinate `(x, y)` adds to a count of live cells: one if a
    /// live cell stands there, nothing otherwise.
    pub open spec fn population(self, x: int, y: int) -> nat {
        if self.alive(x, y) {
            1
        } else {
            0
        }
    }

    /// The number of live cells among the eight coordinates around `(x, y)`.
    pub open spec fn neighbours(self, x: int, y: int) -> nat {
        self.population(x - 1, y - 1) + self.population(x, y - 1) + self.population(x + 1, y - 1)
            + self.population(x - 1, y) + self.population(x + 1, y)
            + self.population(x - 1, y + 1) + self.population(x, y + 1) + self.population(
            x + 1,
            y + 1,
        )
    }

    /// Conway's rule for one cell: a cell with three live neighbours lives,
    /// a live cell with two stays alive, and every other cell is dead.
    pub open spec fn rule(alive: bool, neighbours: nat) -> bool {
        neighbours == 3 || (neighbours == 2 && alive)
    }

    /// The cell at `(x, y)` is alive in the next generation.
    pub open spec fn next_alive(self, x: int, y: int) -> bool {
        self.in_bounds(x, y) && Self::rule(self.alive(x, y), self.neighbours(x, y))
    }

    /// The next generation: the rule applied to every cell at once, each
    /// count taken from this generation.
    pub open spec fn step(self) -> GridView {
        GridView {
            rows: self.rows,
            cols: self.cols,
            cells: Seq::new(
                self.rows * self.cols,
                |i: int| self.next_alive(i % (self.cols as int), i / (self.cols as int)),
            ),
        }
    }
}

/// Inside the grid, an offset stays inside the cell buffer.
pub proof fn lemma_offset_in_range(g: GridView, x: int, y: int)
    requires
        g.in_bounds(x, y),
    ensures
        0 <= y * g.cols,
        0 <= g.offset(x, y) < g.rows * g.cols,
{
    let rows = g.rows as int;
    let cols = g.cols as int;
    assert(0 <= y * cols && x + y * cols < rows * cols) by (nonlinear_arith)
        requires
            0 <= x < cols,
            0 <= y < rows,
    ;
}

} // verus!
