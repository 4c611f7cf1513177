//! What every generation has in common with the one before it: the shape of
//! the grid, the bound on the neighbour count, and the empty grid as a fixed
//! point.

use vstd::prelude::*;
use crate::cell::Cell;
use crate::grid::{
    lemma_cell_on_torus, lemma_index_in_bounds, lemma_index_to_position,
    lemma_position_of_index, Grid,
};

verus! {

/// A position inside the grid holds the cell found at its row-major index.
pub proof fn lemma_cell_in_grid(grid: Grid, row: int, col: int)
    requires
        grid.wf(),
        0 <= row < grid.height,
        0 <= col < grid.width,
    ensures
        0 <= grid.index_of(row, col) < grid.cells.len(),
        grid.cell(row, col) == grid.cells[grid.index_of(row, col)],
{
    lemma_index_in_bounds(grid.width as int, grid.height as int, row, col);
    vstd::arithmetic::div_mod::lemma_small_mod(row as nat, grid.height);
    vstd::arithmetic::div_mod::lemma_small_mod(col as nat, grid.width);
}

/// The torus has no edge: moving a whole height down or a whole width to the
/// right leads back to the same cell, and so to the same neighbours.
pub proof fn lemma_torus_is_periodic(grid: Grid, row: int, col: int)
    requires
        grid.wf(),
    ensures
        grid.cell(row + grid.height, col) == grid.cell(row, col),
        grid.cell(row, col + grid.width) == grid.cell(row, col),
        grid.live_neighbor_count(row + grid.height, col) == grid.live_neighbor_count(row, col),
        grid.live_neighbor_count(row, col + grid.width) == grid.live_neighbor_count(row, col),
{
    let h = grid.height as int;
    let w = grid.width as int;
    vstd::arithmetic::div_mod::lemma_mod_add_multiples_vanish(row - 1, h);
    vstd::arithmetic::div_mod::lemma_mod_add_multiples_vanish(row, h);
    vstd::arithmetic::div_mod::lemma_mod_add_multiples_vanish(row + 1, h);
    vstd::arithmetic::div_mod::lemma_mod_add_multiples_vanish(col - 1, w);
    vstd::arithmetic::div_mod::lemma_mod_add_multiples_vanish(col, w);
    vstd::arithmetic::div_mod::lemma_mod_add_multiples_vanish(col + 1, w);
}

/// A cell has eight neighbours, so between none and eight of them are alive.
pub proof fn lemma_live_neighbor_count_bounds(grid: Grid, row: int, col: int)
    ensures
        0 <= grid.live_neighbor_count(row, col) <= 8,
{
}

/// A generation has the dimensions of the one before it, and again one cell
/// for each position.
pub proof fn lemma_step_keeps_shape(grid: Grid)
    requires
        grid.wf(),
    ensures
        grid.step().wf(),
        grid.step().width == grid.width,
        grid.step().height == grid.height,
        grid.step().cells.len() == grid.width * grid.height,
{
}

/// The cell at a position of the next generation is the next state of the
/// cell at that position.
pub proof fn lemma_step_cell(grid: Grid, row: int, col: int)
    requires
        grid.wf(),
        0 <= row < grid.height,
        0 <= col < grid.width,
    ensures
        grid.step().cell(row, col) == grid.next_cell(row, col),
{
    lemma_cell_in_grid(grid, row, col);
    lemma_cell_in_grid(grid.step(), row, col);
    lemma_index_to_position(grid.width as int, row, col);
}

/// Two grids of the same dimensions that hold the same cell at every
/// position are the same grid.
pub proof fn lemma_grids_equal(one: Grid, other: Grid)
    requires
        one.wf(),
        other.wf(),
        one.width == other.width,
        one.height == other.height,
        forall|row: int, col: int|
            0 <= row < one.height && 0 <= col < one.width ==> #[trigger] one.cell(row, col)
                == other.cell(row, col),
    ensures
        one == other,
{
    let w = one.width as int;
    assert forall|i: int| 0 <= i < one.cells.len() implies one.cells[i] == other.cells[i] by {
        lemma_position_of_index(w, one.height as int, i);
        lemma_cell_in_grid(one, i / w, i % w);
        lemma_cell_in_grid(other, i / w, i % w);
    }
    assert(one.cells =~= other.cells);
}

/// After any number of generations the grid has the dimensions it started
/// with, and its buffer holds `width * height` cells.
pub proof fn lemma_generations_keep_shape(grid: Grid, n: nat)
    requires
        grid.wf(),
    ensures
        grid.after(n).wf(),
        grid.after(n).width == grid.width,
        grid.after(n).height == grid.height,
        grid.after(n).cells.len() == grid.width * grid.height,
    decreases n,
{
    if n > 0 {
        lemma_step_keeps_shape(grid);
        lemma_generations_keep_shape(grid.step(), (n - 1) as nat);
    }
}

/// In a grid without a live cell no cell has a live neighbour.
pub proof fn lemma_dead_grid_has_no_live_neighbors(grid: Grid, row: int, col: int)
    requires
        grid.wf(),
        grid.all_dead(),
    ensures
        grid.cell(row, col) == Cell::Dead,
        grid.live_neighbor_count(row, col) == 0,
{
    assert forall|r: int, c: int| grid.live(r, c) == 0 by {
        lemma_cell_on_torus(grid, r, c);
        lemma_cell_in_grid(grid, r % (grid.height as int), c % (grid.width as int));
    }
    assert(grid.live(row, col) == 0);
}

/// The grid without a live cell is a fixed point: its next generation is the
/// same grid, with the same dimensions and again without a live cell.
pub proof fn lemma_dead_grid_is_fixed_point(grid: Grid)
    requires
        grid.wf(),
        grid.all_dead(),
    ensures
        grid.step() == grid,
        grid.step().all_dead(),
{
    let w = grid.width as int;
    assert forall|i: int| 0 <= i < grid.cells.len() implies grid.step().cells[i]
        == grid.cells[i] by {
        lemma_dead_grid_has_no_live_neighbors(grid, i / w, i % w);
    }
    assert(grid.step().cells =~= grid.cells);
}

/// A grid that is its own next generation never changes.
pub proof fn lemma_fixed_point_stays(grid: Grid, n: nat)
    requires
        grid.step() == grid,
    ensures
        grid.after(n) == grid,
    decreases n,
{
    if n > 0 {
        lemma_fixed_point_stays(grid, (n - 1) as nat);
    }
}

/// Nothing comes alive by itself: a grid without a live cell is still without
/// one, and unchanged, after any number of generations.
pub proof fn lemma_dead_grid_stays_dead(grid: Grid, n: nat)
    requires
        grid.wf(),
        grid.all_dead(),
    ensures
        grid.after(n) == grid,
        grid.after(n).all_dead(),
{
    lemma_dead_grid_is_fixed_point(grid);
    lemma_fixed_point_stays(grid, n);
}

} // verus!
