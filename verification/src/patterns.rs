//! Patterns whose fate is known on every grid that leaves them room: the
//! two-by-two block, which never changes, and the blinker, three cells in a
//! line that turn between lying and standing.

use vstd::prelude::*;
use crate::cell::Cell;
use crate::generations::{
    lemma_cell_in_grid, lemma_fixed_point_stays, lemma_grids_equal, lemma_step_cell,
    lemma_step_keeps_shape,
};
use crate::grid::{
    lemma_cell_on_torus, lemma_position_of_index, lemma_wrap, lemma_wrap_neighbors, Grid,
};

verus! {

/// On a ring of `n` coordinates, `x` is `start` or the coordinate after it.
pub open spec fn in_pair(x: int, start: int, n: int) -> bool {
    x == start || x == (start + 1) % n
}

/// On a ring of `n` coordinates, `x` is `center` or one of the two
/// coordinates next to it.
pub open spec fn in_triple(x: int, center: int, n: int) -> bool {
    x == (center - 1) % n || x == center || x == (center + 1) % n
}

/// 1 if something holds, else 0.
pub open spec fn count(holds: bool) -> int {
    if holds {
        1
    } else {
        0
    }
}

impl Grid {
    /// The live cells are exactly those of the two-by-two block whose upper
    /// left corner is at `(top, left)`. The block may reach over the edge of
    /// the grid: the row after the last is the first, and so for the columns.
    pub open spec fn is_block(self, top: int, left: int) -> bool {
        forall|row: int, col: int|
            0 <= row < self.height && 0 <= col < self.width ==> (#[trigger] self.cell(row, col)
                == Cell::Alive <==> in_pair(row, top, self.height as int) && in_pair(
                col,
                left,
                self.width as int,
            ))
    }

    /// The live cells are exactly three side by side in row `row`: the cell
    /// in column `col` and the cells left and right of it on the torus.
    pub open spec fn is_lying_blinker(self, row: int, col: int) -> bool {
        forall|r: int, c: int|
            0 <= r < self.height && 0 <= c < self.width ==> (#[trigger] self.cell(r, c)
                == Cell::Alive <==> r == row && in_triple(c, col, self.width as int))
    }

    /// The live cells are exactly three one above the other in column `col`:
    /// the cell in row `row` and the cells above and below it on the torus.
    pub open spec fn is_standing_blinker(self, row: int, col: int) -> bool {
        forall|r: int, c: int|
            0 <= r < self.height && 0 <= c < self.width ==> (#[trigger] self.cell(r, c)
                == Cell::Alive <==> in_triple(r, row, self.height as int) && c == col)
    }
}

/// Of three coordinates in a row on a ring of three or more, at most two
/// belong to a pair of neighbouring coordinates, and if the middle one
/// belongs to it then exactly one of the other two does.
proof fn lemma_pair_on_ring(i: int, start: int, n: int)
    requires
        3 <= n,
        0 <= start < n,
    ensures
        count(in_pair((i - 1) % n, start, n)) + count(in_pair(i % n, start, n)) + count(
            in_pair((i + 1) % n, start, n),
        ) <= 2,
        in_pair(i % n, start, n) ==> count(in_pair((i - 1) % n, start, n)) + count(
            in_pair((i + 1) % n, start, n),
        ) == 1,
{
    lemma_wrap_neighbors(i, n);
    lemma_wrap(start + 1, n);
}

/// Of three coordinates in a row on a ring of three or more, exactly one is
/// `center` if the middle one is `center` or next to it, and none otherwise.
proof fn lemma_one_on_ring(i: int, center: int, n: int)
    requires
        3 <= n,
        0 <= center < n,
    ensures
        count((i - 1) % n == center) + count(i % n == center) + count((i + 1) % n == center)
            == count(in_triple(i % n, center, n)),
{
    lemma_wrap_neighbors(i, n);
    lemma_wrap(center - 1, n);
    lemma_wrap(center + 1, n);
}

/// Of three coordinates in a row on a ring of four or more, all three are
/// `center` or next to it if the middle one is `center`; otherwise at most
/// two are, and exactly two if the middle one is next to `center`.
proof fn lemma_triple_on_ring(i: int, center: int, n: int)
    requires
        4 <= n,
        0 <= center < n,
    ensures
        ({
            let near = count(in_triple((i - 1) % n, center, n)) + count(
                in_triple(i % n, center, n),
            ) + count(in_triple((i + 1) % n, center, n));
            &&& i % n == center ==> near == 3
            &&& i % n != center ==> near <= 2
            &&& i % n != center && in_triple(i % n, center, n) ==> near == 2
        }),
{
    lemma_wrap_neighbors(i, n);
    lemma_wrap(center - 1, n);
    lemma_wrap(center + 1, n);
}

/// In a grid that holds one block, a cell is alive exactly if its row and its
/// column, each taken round the torus, are among those of the block.
proof fn lemma_live_in_block(grid: Grid, top: int, left: int, row: int, col: int)
    requires
        grid.wf(),
        grid.is_block(top, left),
    ensures
        grid.live(row, col) == count(
            in_pair(row % (grid.height as int), top, grid.height as int) && in_pair(
                col % (grid.width as int),
                left,
                grid.width as int,
            ),
        ),
{
    lemma_cell_on_torus(grid, row, col);
    let r = row % (grid.height as int);
    let c = col % (grid.width as int);
    assert(grid.cell(r, c) == Cell::Alive <==> in_pair(r, top, grid.height as int) && in_pair(
        c,
        left,
        grid.width as int,
    ));
}

/// In a grid that holds one lying blinker, a cell is alive exactly if its
/// row, taken round the torus, is that of the blinker and its column is one
/// of the blinker's three.
proof fn lemma_live_in_lying_blinker(grid: Grid, row: int, col: int, r: int, c: int)
    requires
        grid.wf(),
        grid.is_lying_blinker(row, col),
    ensures
        grid.live(r, c) == count(
            r % (grid.height as int) == row && in_triple(
                c % (grid.width as int),
                col,
                grid.width as int,
            ),
        ),
{
    lemma_cell_on_torus(grid, r, c);
    let r0 = r % (grid.height as int);
    let c0 = c % (grid.width as int);
    assert(grid.cell(r0, c0) == Cell::Alive <==> r0 == row && in_triple(
        c0,
        col,
        grid.width as int,
    ));
}

/// In a grid that holds one standing blinker, a cell is alive exactly if its
/// column, taken round the torus, is that of the blinker and its row is one
/// of the blinker's three.
proof fn lemma_live_in_standing_blinker(grid: Grid, row: int, col: int, r: int, c: int)
    requires
        grid.wf(),
        grid.is_standing_blinker(row, col),
    ensures
        grid.live(r, c) == count(
            in_triple(r % (grid.height as int), row, grid.height as int) && c % (
            grid.width as int) == col,
        ),
{
    lemma_cell_on_torus(grid, r, c);
    let r0 = r % (grid.height as int);
    let c0 = c % (grid.width as int);
    assert(grid.cell(r0, c0) == Cell::Alive <==> in_triple(r0, row, grid.height as int) && c0
        == col);
}

/// The block is a still life. If exactly the four cells of a two-by-two block
/// are alive, on a grid of at least three rows and three columns, then the
/// next generation is the same grid: the block lives on and nothing else
/// comes alive.
pub proof fn lemma_block_is_still_life(grid: Grid, top: int, left: int)
    requires
        grid.wf(),
        3 <= grid.height,
        3 <= grid.width,
        0 <= top < grid.height,
        0 <= left < grid.width,
        grid.is_block(top, left),
    ensures
        grid.step() == grid,
        grid.step().is_block(top, left),
{
    let h = grid.height as int;
    let w = grid.width as int;
    assert forall|i: int| 0 <= i < grid.cells.len() implies grid.step().cells[i]
        == grid.cells[i] by {
        lemma_position_of_index(w, h, i);
        let row = i / w;
        let col = i % w;
        lemma_cell_in_grid(grid, row, col);
        lemma_live_in_block(grid, top, left, row - 1, col - 1);
        lemma_live_in_block(grid, top, left, row - 1, col);
        lemma_live_in_block(grid, top, left, row - 1, col + 1);
        lemma_live_in_block(grid, top, left, row, col - 1);
        lemma_live_in_block(grid, top, left, row, col);
        lemma_live_in_block(grid, top, left, row, col + 1);
        lemma_live_in_block(grid, top, left, row + 1, col - 1);
        lemma_live_in_block(grid, top, left, row + 1, col);
        lemma_live_in_block(grid, top, left, row + 1, col + 1);
        lemma_pair_on_ring(row, top, h);
        lemma_pair_on_ring(col, left, w);
    }
    assert(grid.step().cells =~= grid.cells);
}

/// The block stays for ever: on a grid of at least three rows and three
/// columns it is there, alone, after any number of generations.
pub proof fn lemma_block_stays(grid: Grid, top: int, left: int, n: nat)
    requires
        grid.wf(),
        3 <= grid.height,
        3 <= grid.width,
        0 <= top < grid.height,
        0 <= left < grid.width,
        grid.is_block(top, left),
    ensures
        grid.after(n) == grid,
{
    lemma_block_is_still_life(grid, top, left);
    lemma_fixed_point_stays(grid, n);
}

/// A lying blinker stands up. If exactly three cells side by side are alive,
/// on a grid of at least three rows and four columns, then in the next
/// generation exactly three cells one above the other are alive, round the
/// same centre.
pub proof fn lemma_lying_blinker_stands_up(grid: Grid, row: int, col: int)
    requires
        grid.wf(),
        3 <= grid.height,
        4 <= grid.width,
        0 <= row < grid.height,
        0 <= col < grid.width,
        grid.is_lying_blinker(row, col),
    ensures
        grid.step().is_standing_blinker(row, col),
{
    let h = grid.height as int;
    let w = grid.width as int;
    assert forall|r: int, c: int| 0 <= r < h && 0 <= c < w implies (#[trigger] grid.step().cell(
        r,
        c,
    ) == Cell::Alive <==> in_triple(r, row, h) && c == col) by {
        lemma_step_cell(grid, r, c);
        lemma_wrap(r, h);
        lemma_wrap(c, w);
        lemma_live_in_lying_blinker(grid, row, col, r - 1, c - 1);
        lemma_live_in_lying_blinker(grid, row, col, r - 1, c);
        lemma_live_in_lying_blinker(grid, row, col, r - 1, c + 1);
        lemma_live_in_lying_blinker(grid, row, col, r, c - 1);
        lemma_live_in_lying_blinker(grid, row, col, r, c);
        lemma_live_in_lying_blinker(grid, row, col, r, c + 1);
        lemma_live_in_lying_blinker(grid, row, col, r + 1, c - 1);
        lemma_live_in_lying_blinker(grid, row, col, r + 1, c);
        lemma_live_in_lying_blinker(grid, row, col, r + 1, c + 1);
        lemma_one_on_ring(r, row, h);
        lemma_triple_on_ring(c, col, w);
    }
}

/// A standing blinker lies down. If exactly three cells one above the other
/// are alive, on a grid of at least four rows and three columns, then in the
/// next generation exactly three cells side by side are alive, round the
/// same centre.
pub proof fn lemma_standing_blinker_lies_down(grid: Grid, row: int, col: int)
    requires
        grid.wf(),
        4 <= grid.height,
        3 <= grid.width,
        0 <= row < grid.height,
        0 <= col < grid.width,
        grid.is_standing_blinker(row, col),
    ensures
        grid.step().is_lying_blinker(row, col),
{
    let h = grid.height as int;
    let w = grid.width as int;
    assert forall|r: int, c: int| 0 <= r < h && 0 <= c < w implies (#[trigger] grid.step().cell(
        r,
        c,
    ) == Cell::Alive <==> r == row && in_triple(c, col, w)) by {
        lemma_step_cell(grid, r, c);
        lemma_wrap(r, h);
        lemma_wrap(c, w);
        lemma_live_in_standing_blinker(grid, row, col, r - 1, c - 1);
        lemma_live_in_standing_blinker(grid, row, col, r - 1, c);
        lemma_live_in_standing_blinker(grid, row, col, r - 1, c + 1);
        lemma_live_in_standing_blinker(grid, row, col, r, c - 1);
        lemma_live_in_standing_blinker(grid, row, col, r, c);
        lemma_live_in_standing_blinker(grid, row, col, r, c + 1);
        lemma_live_in_standing_blinker(grid, row, col, r + 1, c - 1);
        lemma_live_in_standing_blinker(grid, row, col, r + 1, c);
        lemma_live_in_standing_blinker(grid, row, col, r + 1, c + 1);
        lemma_triple_on_ring(r, row, h);
        lemma_one_on_ring(c, col, w);
    }
}

/// The blinker has period two. If exactly three cells side by side are alive,
/// on a grid of at least four rows and four columns, then two generations
/// later the grid is what it was.
pub proof fn lemma_blinker_has_period_two(grid: Grid, row: int, col: int)
    requires
        grid.wf(),
        4 <= grid.height,
        4 <= grid.width,
        0 <= row < grid.height,
        0 <= col < grid.width,
        grid.is_lying_blinker(row, col),
    ensures
        grid.step().step() == grid,
        grid.after(2) == grid,
{
    let next = grid.step();
    let back = next.step();
    lemma_step_keeps_shape(grid);
    lemma_step_keeps_shape(next);
    lemma_lying_blinker_stands_up(grid, row, col);
    lemma_standing_blinker_lies_down(next, row, col);
    assert forall|r: int, c: int|
        0 <= r < grid.height && 0 <= c < grid.width implies #[trigger] back.cell(r, c)
        == grid.cell(r, c) by {
        assert(back.cell(r, c) == Cell::Alive <==> grid.cell(r, c) == Cell::Alive);
    }
    lemma_grids_equal(back, grid);
    assert(grid.after(2) == grid.step().after(1));
    assert(next.after(1) == next.step().after(0));
}

} // verus!
