//! What holds of every well-formed grid: how coordinates and offsets
//! correspond, what writing a cell and taking a step do to each cell, and
//! which patterns a step leaves alone.

use vstd::prelude::*;
use vstd::arithmetic::div_mod::lemma_fundamental_div_mod;
use vstd::arithmetic::div_mod::lemma_fundamental_div_mod_converse;
use vstd::arithmetic::div_mod::lemma_mod_bound;
use crate::simulation::grid::GridError;
use crate::simulation::model::GridView;
use crate::simulation::model::lemma_offset_in_range;

verus! {

/// Two cells of the grid that share an offset are the same cell.
pub proof fn lemma_offset_injective(g: GridView, x1: int, y1: int, x2: int, y2: int)
    requires
        g.in_bounds(x1, y1),
        g.in_bounds(x2, y2),
        g.offset(x1, y1) == g.offset(x2, y2),
    ensures
        x1 == x2,
        y1 == y2,
{
    let cols = g.cols as int;
    assert(y1 == y2) by (nonlinear_arith)
        requires
            0 <= x1 < cols,
            0 <= x2 < cols,
            x1 + y1 * cols == x2 + y2 * cols,
    ;
}

/// Every offset into the buffer of a well-formed grid is the offset of the
/// cell at column `i % cols`, row `i / cols`.
pub proof fn lemma_offset_names_a_cell(g: GridView, i: int)
    requires
        g.wf(),
        0 <= i < g.cells.len(),
    ensures
        g.in_bounds(i % (g.cols as int), i / (g.cols as int)),
        g.offset(i % (g.cols as int), i / (g.cols as int)) == i,
{
    let rows = g.rows as int;
    let cols = g.cols as int;
    assert(cols > 0) by (nonlinear_arith)
        requires
            0 <= i < rows * cols,
            0 <= cols,
    ;
    lemma_fundamental_div_mod(i, cols);
    lemma_mod_bound(i, cols);
    let q = i / cols;
    let r = i % cols;
    assert(0 <= q < rows && r + q * cols == i) by (nonlinear_arith)
        requires
            i == cols * q + r,
            0 <= r < cols,
            0 <= i < rows * cols,
    ;
}

/// The cell at `(x, y)` of a grid stands at column `x`, row `y` of its
/// buffer: dividing its offset by the stride gives the coordinate back.
pub proof fn lemma_offset_gives_coordinates(g: GridView, x: int, y: int)
    requires
        g.in_bounds(x, y),
    ensures
        g.offset(x, y) % (g.cols as int) == x,
        g.offset(x, y) / (g.cols as int) == y,
{
    let cols = g.cols as int;
    assert(g.offset(x, y) == y * cols + x);
    lemma_fundamental_div_mod_converse(g.offset(x, y), cols, y, x);
}

/// A new grid has the dimensions it was made with, holds one cell for each
/// coordinate, and every one of its cells is dead.
pub proof fn lemma_dead_grid(rows: nat, cols: nat, x: int, y: int)
    ensures
        GridView::dead(rows, cols).wf(),
        GridView::dead(rows, cols).rows == rows,
        GridView::dead(rows, cols).cols == cols,
        !GridView::dead(rows, cols).alive(x, y),
        GridView::dead(rows, cols).in_bounds(x, y) ==> GridView::dead(rows, cols).read(x, y)
            == Ok::<bool, GridError>(false),
{
    let g = GridView::dead(rows, cols);
    if g.in_bounds(x, y) {
        lemma_offset_in_range(g, x, y);
    }
}

/// Reading fails exactly outside the grid, and always with the
/// out-of-bounds error; inside it, reading gives the cell's state.
pub proof fn lemma_read_fails_outside(g: GridView, x: int, y: int)
    ensures
        g.read(x, y) is Err <==> !g.in_bounds(x, y),
        !g.in_bounds(x, y) ==> g.read(x, y) == Err::<bool, GridError>(GridError::OutOfBounds),
        g.in_bounds(x, y) ==> g.read(x, y) == Ok::<bool, GridError>(g.alive(x, y)),
{
}

/// A read depends on the grid's state and the coordinate alone: as long as
/// the state is the same, reading one coordinate gives the same answer.
pub proof fn lemma_read_repeatable(first: GridView, second: GridView, x: int, y: int)
    requires
        first == second,
    ensures
        first.read(x, y) == second.read(x, y),
        first.neighbours(x, y) == second.neighbours(x, y),
{
}

/// Writing a cell and reading any cell afterwards: the written cell holds
/// the value written, every other cell is as it was, and the grid keeps its
/// dimensions.
pub proof fn lemma_with_cell(g: GridView, x: int, y: int, value: bool, u: int, v: int)
    requires
        g.wf(),
        g.in_bounds(x, y),
    ensures
        g.with_cell(x, y, value).wf(),
        g.with_cell(x, y, value).rows == g.rows,
        g.with_cell(x, y, value).cols == g.cols,
        g.with_cell(x, y, value).alive(u, v) == (if u == x && v == y {
            value
        } else {
            g.alive(u, v)
        }),
{
    lemma_offset_in_range(g, x, y);
    if g.in_bounds(u, v) {
        lemma_offset_in_range(g, u, v);
        if g.offset(u, v) == g.offset(x, y) {
            lemma_offset_injective(g, u, v, x, y);
        }
    }
}

/// A well-formed grid is determined by its dimensions and the state of each
/// of its cells.
pub proof fn lemma_equal_by_cells(a: GridView, b: GridView)
    requires
        a.wf(),
        b.wf(),
        a.rows == b.rows,
        a.cols == b.cols,
        forall|x: int, y: int| a.in_bounds(x, y) ==> a.alive(x, y) == b.alive(x, y),
    ensures
        a == b,
{
    assert forall|i: int| 0 <= i < a.cells.len() implies a.cells[i] == b.cells[i] by {
        lemma_offset_names_a_cell(a, i);
        let x = i % (a.cols as int);
        let y = i / (a.cols as int);
        assert(a.alive(x, y) == b.alive(x, y));
    }
    assert(a.cells =~= b.cells);
}

/// A step keeps the dimensions, and each cell of the next generation is
/// what the rule makes of that cell and its neighbours in this one.
pub proof fn lemma_step_cell(g: GridView, x: int, y: int)
    requires
        g.wf(),
    ensures
        g.step().wf(),
        g.step().rows == g.rows,
        g.step().cols == g.cols,
        g.step().alive(x, y) == g.next_alive(x, y),
        g.in_bounds(x, y) ==> g.step().alive(x, y) == GridView::rule(
            g.alive(x, y),
            g.neighbours(x, y),
        ),
{
    if g.in_bounds(x, y) {
        lemma_offset_in_range(g, x, y);
        lemma_offset_gives_coordinates(g, x, y);
    }
}

/// `(u, v)` is one of the four cells of the 2×2 block whose first cell is `(x, y)`.
pub open spec fn in_block(x: int, y: int, u: int, v: int) -> bool {
    x <= u <= x + 1 && y <= v <= y + 1
}

/// `(u, v)` is one of the twelve coordinates that surround the 2×2 block
/// whose first cell is `(x, y)`.
pub open spec fn around_block(x: int, y: int, u: int, v: int) -> bool {
    x - 1 <= u <= x + 2 && y - 1 <= v <= y + 2 && !in_block(x, y, u, v)
}

/// The block is a still life: where four live cells form a 2×2 block and
/// no live cell surrounds it, each cell of the block has exactly three live
/// neighbours, and all four are alive in the next generation.
pub proof fn lemma_block_survives(g: GridView, x: int, y: int)
    requires
        g.wf(),
        forall|u: int, v: int| in_block(x, y, u, v) ==> #[trigger] g.alive(u, v),
        forall|u: int, v: int| around_block(x, y, u, v) ==> !#[trigger] g.alive(u, v),
    ensures
        forall|u: int, v: int| in_block(x, y, u, v) ==> #[trigger] g.neighbours(u, v) == 3,
        forall|u: int, v: int| in_block(x, y, u, v) ==> #[trigger] g.step().alive(u, v),
{
    assert forall|u: int, v: int| in_block(x, y, u, v) implies #[trigger] g.neighbours(u, v)
        == 3 by {
        lemma_block_cell_has_three(g, x, y, u, v);
    }
    assert forall|u: int, v: int| in_block(x, y, u, v) implies #[trigger] g.step().alive(
        u,
        v,
    ) by {
        lemma_block_cell_has_three(g, x, y, u, v);
        assert(g.alive(u, v));
        lemma_step_cell(g, u, v);
    }
}

/// One cell of a 2×2 block that no live cell surrounds has the three other
/// cells of the block for live neighbours, and no more.
proof fn lemma_block_cell_has_three(g: GridView, x: int, y: int, u: int, v: int)
    requires
        forall|p: int, q: int| in_block(x, y, p, q) ==> #[trigger] g.alive(p, q),
        forall|p: int, q: int| around_block(x, y, p, q) ==> !#[trigger] g.alive(p, q),
        in_block(x, y, u, v),
    ensures
        g.neighbours(u, v) == 3,
{
    assert(g.alive(u - 1, v - 1) == in_block(x, y, u - 1, v - 1));
    assert(g.alive(u, v - 1) == in_block(x, y, u, v - 1));
    assert(g.alive(u + 1, v - 1) == in_block(x, y, u + 1, v - 1));
    assert(g.alive(u - 1, v) == in_block(x, y, u - 1, v));
    assert(g.alive(u + 1, v) == in_block(x, y, u + 1, v));
    assert(g.alive(u - 1, v + 1) == in_block(x, y, u - 1, v + 1));
    assert(g.alive(u, v + 1) == in_block(x, y, u, v + 1));
    assert(g.alive(u + 1, v + 1) == in_block(x, y, u + 1, v + 1));
}

/// A grid whose live cells are those of one 2×2 block, and no others, is
/// its own next generation.
pub proof fn lemma_lone_block_is_fixed(g: GridView, x: int, y: int)
    requires
        g.wf(),
        forall|u: int, v: int| #[trigger] g.alive(u, v) == in_block(x, y, u, v),
    ensures
        g.step() == g,
{
    lemma_step_cell(g, 0, 0);
    assert forall|u: int, v: int| g.in_bounds(u, v) implies g.step().alive(u, v) == g.alive(
        u,
        v,
    ) by {
        lemma_step_cell(g, u, v);
        assert(g.alive(u - 1, v - 1) == in_block(x, y, u - 1, v - 1));
        assert(g.alive(u, v - 1) == in_block(x, y, u, v - 1));
        assert(g.alive(u + 1, v - 1) == in_block(x, y, u + 1, v - 1));
        assert(g.alive(u - 1, v) == in_block(x, y, u - 1, v));
        assert(g.alive(u + 1, v) == in_block(x, y, u + 1, v));
        assert(g.alive(u - 1, v + 1) == in_block(x, y, u - 1, v + 1));
        assert(g.alive(u, v + 1) == in_block(x, y, u, v + 1));
        assert(g.alive(u + 1, v + 1) == in_block(x, y, u + 1, v + 1));
        assert(g.alive(u, v) == in_block(x, y, u, v));
    }
    lemma_equal_by_cells(g.step(), g);
}

/// No cell has more than eight live neighbours.
pub proof fn lemma_neighbours_at_most_eight(g: GridView, x: int, y: int)
    ensures
        g.neighbours(x, y) <= 8,
{
}

} // verus!
