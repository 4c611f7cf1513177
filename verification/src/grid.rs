//! The mathematical model of the automaton: a torus of cells, the count of
//! live neighbours, and the step from one generation to the next.

use vstd::prelude::*;
use crate::cell::{next_state, Cell};

verus! {

/// A grid as a mathematical value: its dimensions and its cells in row-major
/// order, so that position `(row, col)` is found at `row * width + col`.
pub struct Grid {
    pub width: nat,
    pub height: nat,
    pub cells: Seq<Cell>,
}

impl Grid {
    /// Both dimensions are positive and there is one cell for each position.
    pub open spec fn wf(self) -> bool {
        &&& self.width > 0
        &&& self.height > 0
        &&& self.cells.len() == self.width * self.height
    }

    /// Where the cell of position `(row, col)` stands among the cells.
    pub open spec fn index_of(self, row: int, col: int) -> int {
        row * self.width + col
    }

    /// The cell at `(row, col)` on the torus. Any pair of integers names a
    /// position: the row is taken modulo the height and the column modulo the
    /// width, so row `-1` is the last row and row `height` is row 0.
    pub open spec fn cell(self, row: int, col: int) -> Cell {
        self.cells[self.index_of(row % (self.height as int), col % (self.width as int))]
    }

    /// 1 if the cell at `(row, col)` on the torus is alive, else 0.
    pub open spec fn live(self, row: int, col: int) -> int {
        self.cell(row, col).value()
    }

    /// How many of the eight positions around `(row, col)` hold a live cell.
    pub open spec fn live_neighbor_count(self, row: int, col: int) -> int {
        self.live(row - 1, col - 1) + self.live(row - 1, col) + self.live(row - 1, col + 1)
            + self.live(row, col - 1) + self.live(row, col + 1)
            + self.live(row + 1, col - 1) + self.live(row + 1, col) + self.live(row + 1, col + 1)
    }

    /// The state that the cell at `(row, col)` has in the next generation.
    pub open spec fn next_cell(self, row: int, col: int) -> Cell {
        next_state(self.cell(row, col), self.live_neighbor_count(row, col))
    }

    /// The next generation: every cell is replaced by its next state, each
    /// computed from this generation alone.
    pub open spec fn step(self) -> Grid {
        Grid {
            width: self.width,
            height: self.height,
            cells: Seq::new(
                self.cells.len(),
                |i: int| self.next_cell(i / (self.width as int), i % (self.width as int)),
            ),
        }
    }

    /// The grid `n` generations later.
    pub open spec fn after(self, n: nat) -> Grid
        decreases n,
    {
        if n == 0 {
            self
        } else {
            self.step().after((n - 1) as nat)
        }
    }

    /// The grid as text: one line for each row, each line made of the glyphs
    /// of the row's cells and ended by a line break.
    pub open spec fn text(self) -> Seq<char> {
        Seq::new(
            self.height * (self.width + 1),
            |p: int|
                {
                    let row = p / ((self.width + 1) as int);
                    let col = p % ((self.width + 1) as int);
                    if col == self.width {
                        '\n'
                    } else {
                        self.cells[self.index_of(row, col)].glyph()
                    }
                },
        )
    }

    /// No cell is alive.
    pub open spec fn all_dead(self) -> bool {
        forall|i: int| 0 <= i < self.cells.len() ==> self.cells[i] == Cell::Dead
    }
}

/// On the torus a position is the same as the position that its row, taken
/// modulo the height, and its column, taken modulo the width, name.
pub proof fn lemma_cell_on_torus(grid: Grid, row: int, col: int)
    requires
        grid.wf(),
    ensures
        0 <= row % (grid.height as int) < grid.height,
        0 <= col % (grid.width as int) < grid.width,
        grid.cell(row, col) == grid.cell(row % (grid.height as int), col % (grid.width as int)),
        grid.live(row, col) == grid.live(row % (grid.height as int), col % (grid.width as int)),
{
    let h = grid.height as int;
    let w = grid.width as int;
    vstd::arithmetic::div_mod::lemma_mod_bound(row, h);
    vstd::arithmetic::div_mod::lemma_mod_bound(col, w);
    vstd::arithmetic::div_mod::lemma_small_mod((row % h) as nat, h as nat);
    vstd::arithmetic::div_mod::lemma_small_mod((col % w) as nat, w as nat);
}

/// A position inside a `width` by `height` grid has its index inside the cells.
pub proof fn lemma_index_in_bounds(width: int, height: int, row: int, col: int)
    requires
        0 <= row < height,
        0 <= col < width,
    ensures
        0 <= row * width + col < width * height,
{
    assert(0 <= row * width && (row + 1) * width <= height * width) by (nonlinear_arith)
        requires
            0 <= row < height,
            0 < width,
    ;
    assert((row + 1) * width == row * width + width) by (nonlinear_arith);
    assert(height * width == width * height) by (nonlinear_arith);
}

/// Row and column are recovered from a row-major index by division and
/// remainder.
pub proof fn lemma_index_to_position(width: int, row: int, col: int)
    requires
        0 <= col < width,
    ensures
        (row * width + col) / width == row,
        (row * width + col) % width == col,
{
    vstd::arithmetic::div_mod::lemma_fundamental_div_mod_converse(
        row * width + col,
        width,
        row,
        col,
    );
}

/// Every index below `width * height` is the index of one position of the grid.
pub proof fn lemma_position_of_index(width: int, height: int, i: int)
    requires
        0 < width,
        0 <= i < width * height,
    ensures
        0 <= i / width < height,
        0 <= i % width < width,
        (i / width) * width + i % width == i,
{
    vstd::arithmetic::div_mod::lemma_fundamental_div_mod(i, width);
    vstd::arithmetic::div_mod::lemma_mod_bound(i, width);
    let q = i / width;
    assert(width * q == q * width) by (nonlinear_arith);
    assert(0 <= q < height) by (nonlinear_arith)
        requires
            0 < width,
            0 <= i < width * height,
            i == q * width + i % width,
            0 <= i % width < width,
    ;
}

/// Coordinates that are one step off the range wrap round to the other side.
pub proof fn lemma_wrap(i: int, n: int)
    requires
        0 < n,
        -n <= i < 2 * n,
    ensures
        i % n == if i < 0 {
            i + n
        } else if i < n {
            i
        } else {
            i - n
        },
{
    if i < 0 {
        vstd::arithmetic::div_mod::lemma_fundamental_div_mod_converse(i, n, -1, i + n);
    } else if i < n {
        vstd::arithmetic::div_mod::lemma_fundamental_div_mod_converse(i, n, 0, i);
    } else {
        vstd::arithmetic::div_mod::lemma_fundamental_div_mod_converse(i, n, 1, i - n);
    }
}

/// The neighbours of a coordinate, taken modulo `n`, are the neighbours of the
/// coordinate taken modulo `n`.
pub proof fn lemma_wrap_neighbors(i: int, n: int)
    requires
        0 < n,
    ensures
        0 <= i % n < n,
        (i - 1) % n == if i % n == 0 {
            n - 1
        } else {
            i % n - 1
        },
        (i + 1) % n == if i % n == n - 1 {
            0
        } else {
            i % n + 1
        },
{
    let q = i / n;
    let r = i % n;
    vstd::arithmetic::div_mod::lemma_fundamental_div_mod(i, n);
    vstd::arithmetic::div_mod::lemma_mod_bound(i, n);
    assert(n * q == q * n) by (nonlinear_arith);
    assert((q - 1) * n == q * n - n) by (nonlinear_arith);
    assert((q + 1) * n == q * n + n) by (nonlinear_arith);
    if r == 0 {
        vstd::arithmetic::div_mod::lemma_fundamental_div_mod_converse(i - 1, n, q - 1, n - 1);
    } else {
        vstd::arithmetic::div_mod::lemma_fundamental_div_mod_converse(i - 1, n, q, r - 1);
    }
    if r == n - 1 {
        vstd::arithmetic::div_mod::lemma_fundamental_div_mod_converse(i + 1, n, q + 1, 0);
    } else {
        vstd::arithmetic::div_mod::lemma_fundamental_div_mod_converse(i + 1, n, q, r + 1);
    }
}

} // verus!
