//! The single-step transition of Conway's Game of Life.

use vstd::prelude::*;
use crate::simulation::grid::Grid;
use crate::simulation::laws::lemma_equal_by_cells;
use crate::simulation::laws::lemma_step_cell;
use crate::simulation::laws::lemma_with_cell;
use crate::simulation::model::GridView;

verus! {

/// Implements Conway's Game of Life for a data structure. See
/// [Wikipedia](https://en.wikipedia.org/wiki/Conway%27s_Game_of_Life#Rules).
pub trait GameOfLife: Sized {
    /// `next` is the generation that follows this one.
    spec fn followed_by(&self, next: &Self) -> bool;

    /// Run a single cycle of the simulation.
    fn simulate(&self) -> (next: Self)
        ensures
            self.followed_by(&next),
    ;
}

/// The cell at `(u, v)` comes before `(x, y)` when the grid is walked column
/// by column, each column from its first row down.
spec fn walked(u: int, v: int, x: int, y: int) -> bool {
    u < x || (u == x && v < y)
}

/// `next` holds the next generation of `now` in every cell walked before
/// `(x, y)`, and the state of `now` in the others.
spec fn stepped_up_to(now: GridView, next: GridView, x: int, y: int) -> bool {
    &&& next.wf()
    &&& next.rows == now.rows
    &&& next.cols == now.cols
    &&& forall|u: int, v: int|
        now.in_bounds(u, v) ==> #[trigger] next.alive(u, v) == (if walked(u, v, x, y) {
            now.next_alive(u, v)
        } else {
            now.alive(u, v)
        })
}

impl GameOfLife for Grid {
    /// One grid follows another when it is the other's model after one step.
    open spec fn followed_by(&self, next: &Grid) -> bool {
        next@ == self@.step()
    }

    /// The next generation, as a grid of its own: every cell is decided by
    /// the rule from its state and its neighbours in this generation, and
    /// this grid is left as it is.
    fn simulate(&self) -> (next: Grid)
        ensures
            next@ == self@.step(),
    {
        let mut result = self.clone();
        let cols: usize = self.cols();
        let rows: usize = self.rows();
        proof {
            self.lemma_view_wf();
        }

        let mut x: usize = 0;
        while x < cols
            invariant
                self@.wf(),
                cols == self@.cols,
                rows == self@.rows,
                x <= cols,
                stepped_up_to(self@, result@, x as int, 0),
            decreases cols - x,
        {
            let mut y: usize = 0;
            while y < rows
                invariant
                    self@.wf(),
                    cols == self@.cols,
                    rows == self@.rows,
                    x < cols,
                    y <= rows,
                    stepped_up_to(self@, result@, x as int, y as int),
                decreases rows - y,
            {
                let ghost before = result@;
                match self.neighbours((x, y)) {
                    0..=1 | 4..=9 => result.put(x, y, false),
                    3 => result.put(x, y, true),
                    _ => (),
                }
                proof {
                    assert forall|u: int, v: int| self@.in_bounds(u, v) implies #[trigger] result@.alive(
                        u,
                        v,
                    ) == (if walked(u, v, x as int, y + 1) {
                        self@.next_alive(u, v)
                    } else {
                        self@.alive(u, v)
                    }) by {
                        assert(before.alive(u, v) == (if walked(u, v, x as int, y as int) {
                            self@.next_alive(u, v)
                        } else {
                            self@.alive(u, v)
                        }));
                        lemma_with_cell(before, x as int, y as int, false, u, v);
                        lemma_with_cell(before, x as int, y as int, true, u, v);
                    }
                    lemma_with_cell(before, x as int, y as int, false, x as int, y as int);
                    lemma_with_cell(before, x as int, y as int, true, x as int, y as int);
                }
                y += 1;
            }
            x += 1;
        }

        proof {
            lemma_step_cell(self@, 0, 0);
            assert forall|u: int, v: int| self@.in_bounds(u, v) implies result@.alive(u, v)
                == self@.step().alive(u, v) by {
                lemma_step_cell(self@, u, v);
            }
            lemma_equal_by_cells(result@, self@.step());
        }
        result
    }
}

} // verus!
