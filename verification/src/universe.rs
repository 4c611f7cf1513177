//! The executable grid: a flat buffer of cells that `tick` takes from one
//! generation to the next.

use vstd::prelude::*;
use vstd::string::StringExecFns;
use crate::cell::Cell;
use crate::seed::{
    lemma_seed_cell, lemma_shapes_in_grid, on_stripe, seed_grid, seed_shapes, shape_among,
    shape_at, SEED_HEIGHT, SEED_WIDTH, STRIPE_OFFSET, STRIPE_PERIOD,
};
use crate::grid::{
    lemma_cell_on_torus, lemma_index_in_bounds, lemma_index_to_position,
    lemma_position_of_index, lemma_wrap_neighbors, Grid,
};

verus! {

/// Why a grid could not be built from the values given.
#[derive(Clone, Copy, Debug, PartialEq, Eq, Structural)]
pub enum GridError {
    /// The width or the height is zero.
    EmptyDimension,
    /// The number of cells is not the width times the height.
    SizeMismatch,
}

/// A toroidal grid of cells with fixed dimensions.
///
/// The cells are held in one buffer in row-major order. The dimensions are
/// positive and the buffer has one cell for each position; no operation
/// changes the dimensions.
#[derive(Debug)]
pub struct Universe {
    width: u32,
    height: u32,
    cells: Vec<Cell>,
}

impl View for Universe {
    type V = Grid;

    closed spec fn view(&self) -> Grid {
        Grid { width: self.width as nat, height: self.height as nat, cells: self.cells@ }
    }
}

impl Universe {
    #[verifier::type_invariant]
    spec fn inv(&self) -> bool {
        self@.wf()
    }

    /// A universe of 64 by 64 cells that holds the seed pattern: the stripe,
    /// and on top of it the shapes.
    pub fn new() -> (universe: Universe)
        ensures
            universe@ == seed_grid(),
            universe@.wf(),
    {
        let width = SEED_WIDTH;
        let height = SEED_HEIGHT;
        let size: u32 = width * height;
        let mut cells: Vec<Cell> = Vec::new();
        for i in 0..size
            invariant
                size == SEED_WIDTH * SEED_HEIGHT,
                cells@.len() == i,
                forall|j: int|
                    0 <= j < i ==> (#[trigger] cells@[j] == Cell::Alive <==> on_stripe(j)),
        {
            let cell = if i % STRIPE_PERIOD == STRIPE_OFFSET || i % STRIPE_PERIOD == STRIPE_OFFSET
                + SEED_WIDTH {
                Cell::Alive
            } else {
                Cell::Dead
            };
            cells.push(cell);
        }
        let shapes: [(u32, u32); 20] = [
            (11, 11), (11, 12), (12, 12),
            (31, 11), (31, 12), (32, 11), (32, 12),
            (21, 21), (21, 24),
            (22, 25),
            (23, 21), (23, 25),
            (24, 22), (24, 23), (24, 24), (24, 25),
            (22, 61), (22, 62), (23, 61), (23, 62),
        ];
        proof {
            assert(shapes@ =~= seed_shapes());
            lemma_shapes_in_grid();
        }
        for k in 0..20usize
            invariant
                width == SEED_WIDTH,
                shapes@ == seed_shapes(),
                cells@.len() == SEED_WIDTH * SEED_HEIGHT,
                forall|j: int|
                    0 <= j < cells@.len() ==> (#[trigger] cells@[j] == Cell::Alive <==> on_stripe(j)
                        || shape_among(k as int, j)),
        {
            let (row, column) = shapes[k];
            let ghost before = cells@;
            let index = (row * width + column) as usize;
            cells.set(index, Cell::Alive);
            proof {
                assert(shape_at(k as int, index as int));
                assert forall|j: int| 0 <= j < cells@.len() implies (#[trigger] cells@[j]
                    == Cell::Alive <==> on_stripe(j) || shape_among(k + 1, j)) by {
                    if j != index && shape_among(k + 1, j) {
                        let m = choose|m: int| m < k + 1 && shape_at(m, j);
                        assert(m < k && shape_at(m, j));
                    }
                    assert(cells@[j] == if j == index {
                        Cell::Alive
                    } else {
                        before[j]
                    });
                }
            }
        }
        proof {
            assert forall|i: int| 0 <= i < cells@.len() implies cells@[i] == seed_grid().cells[i] by {
                lemma_seed_cell(i);
            }
            assert(cells@ =~= seed_grid().cells);
        }
        Universe { width, height, cells }
    }

    /// A grid of the given dimensions that holds the given cells, row by row.
    ///
    /// Fails with `EmptyDimension` if a dimension is zero, and otherwise with
    /// `SizeMismatch` if `cells` does not hold `width * height` cells.
    pub fn from_cells(width: u32, height: u32, cells: Vec<Cell>) -> (result: Result<
        Universe,
        GridError,
    >)
        ensures
            result is Ok <==> width > 0 && height > 0 && cells@.len() == width * height,
            result matches Ok(universe) ==> universe@.wf() && universe@ == (Grid {
                width: width as nat,
                height: height as nat,
                cells: cells@,
            }),
            result matches Err(error) ==> error == if width == 0 || height == 0 {
                GridError::EmptyDimension
            } else {
                GridError::SizeMismatch
            },
    {
        if width == 0 || height == 0 {
            return Err(GridError::EmptyDimension);
        }
        assert(width * height <= u64::MAX) by (nonlinear_arith)
            requires
                width <= u32::MAX,
                height <= u32::MAX,
        ;
        let size: u64 = (width as u64) * (height as u64);
        if cells.len() as u64 != size {
            return Err(GridError::SizeMismatch);
        }
        Ok(Universe { width, height, cells })
    }

    /// The number of columns.
    pub fn width(&self) -> (width: u32)
        ensures
            width == self@.width,
            self@.wf(),
    {
        proof {
            use_type_invariant(self);
        }
        self.width
    }

    /// The number of rows.
    pub fn height(&self) -> (height: u32)
        ensures
            height == self@.height,
            self@.wf(),
    {
        proof {
            use_type_invariant(self);
        }
        self.height
    }

    /// The cells of the present generation in row-major order, `width * height`
    /// of them.
    pub fn cells(&self) -> (cells: &[Cell])
        ensures
            cells@ == self@.cells,
            cells@.len() == self@.width * self@.height,
            self@.wf(),
    {
        proof {
            use_type_invariant(self);
        }
        self.cells.as_slice()
    }

    fn get_index(&self, row: u32, column: u32) -> (index: usize)
        requires
            row < self@.height,
            column < self@.width,
        ensures
            index == self@.index_of(row as int, column as int),
            index < self@.cells.len(),
    {
        proof {
            use_type_invariant(self);
            lemma_index_in_bounds(
                self.width as int,
                self.height as int,
                row as int,
                column as int,
            );
            assert(self.cells@.len() == self.cells.len() <= usize::MAX);
            assert(0 <= row * self.width) by (nonlinear_arith);
        }
        (row as usize) * (self.width as usize) + (column as usize)
    }

    fn live_at(&self, row: u32, column: u32) -> (live: u8)
        requires
            row < self@.height,
            column < self@.width,
        ensures
            live == self@.live(row as int, column as int),
            live <= 1,
    {
        proof {
            vstd::arithmetic::div_mod::lemma_small_mod(row as nat, self@.height);
            vstd::arithmetic::div_mod::lemma_small_mod(column as nat, self@.width);
        }
        let index = self.get_index(row, column);
        self.cells[index].to_u8()
    }

    /// The number of live cells among the eight neighbours of `(row, column)`.
    ///
    /// The grid is a torus: the row above the first is the last, the column
    /// left of the first is the last, and `row` and `column` themselves are
    /// taken modulo the height and the width.
    pub fn live_neighbor_count(&self, row: u32, column: u32) -> (count: u8)
        ensures
            count == self@.live_neighbor_count(row as int, column as int),
            count <= 8,
    {
        proof {
            use_type_invariant(self);
            let (r, c) = (row as int, column as int);
            lemma_wrap_neighbors(r, self.height as int);
            lemma_wrap_neighbors(c, self.width as int);
            lemma_cell_on_torus(self@, r - 1, c - 1);
            lemma_cell_on_torus(self@, r - 1, c);
            lemma_cell_on_torus(self@, r - 1, c + 1);
            lemma_cell_on_torus(self@, r, c - 1);
            lemma_cell_on_torus(self@, r, c + 1);
            lemma_cell_on_torus(self@, r + 1, c - 1);
            lemma_cell_on_torus(self@, r + 1, c);
            lemma_cell_on_torus(self@, r + 1, c + 1);
        }
        let row = row % self.height;
        let column = column % self.width;
        let north = if row == 0 {
            self.height - 1
        } else {
            row - 1
        };
        let south = if row == self.height - 1 {
            0
        } else {
            row + 1
        };
        let west = if column == 0 {
            self.width - 1
        } else {
            column - 1
        };
        let east = if column == self.width - 1 {
            0
        } else {
            column + 1
        };
        self.live_at(north, west) + self.live_at(north, column) + self.live_at(north, east)
            + self.live_at(row, west) + self.live_at(row, east) + self.live_at(south, west)
            + self.live_at(south, column) + self.live_at(south, east)
    }

    /// The grid as text, one line for each row: a white square for a dead
    /// cell, a black square for a live one, and a line break after each row.
    pub fn render(&self) -> (text: String)
        ensures
            text@ == self@.text(),
    {
        proof {
            use_type_invariant(self);
        }
        let ghost grid = self@;
        let ghost line = (grid.width + 1) as int;
        let mut text = String::new();
        for row in 0..self.height
            invariant
                self@ == grid,
                grid.wf(),
                line == grid.width + 1,
                text@.len() == row * line,
                forall|p: int| 0 <= p < text@.len() ==> text@[p] == grid.text()[p],
        {
            for col in 0..self.width
                invariant
                    self@ == grid,
                    grid.wf(),
                    line == grid.width + 1,
                    row < grid.height,
                    text@.len() == row * line + col,
                    forall|p: int| 0 <= p < text@.len() ==> text@[p] == grid.text()[p],
            {
                let index = self.get_index(row, col);
                proof {
                    lemma_index_in_bounds(line, grid.height as int, row as int, col as int);
                    lemma_index_to_position(line, row as int, col as int);
                }
                text.append(self.cells[index].symbol());
            }
            proof {
                reveal_strlit("\n");
                lemma_index_in_bounds(line, grid.height as int, row as int, grid.width as int);
                lemma_index_to_position(line, row as int, grid.width as int);
                assert((row + 1) * line == row * line + grid.width + 1) by (nonlinear_arith)
                    requires
                        line == grid.width + 1,
                ;
            }
            let ghost before = text@;
            text.append("\n");
            assert(text@ =~= before.push('\n'));
        }
        proof {
            assert(grid.height * line == line * grid.height) by (nonlinear_arith);
            assert(text@ =~= grid.text());
        }
        text
    }

    /// Replaces the grid by its next generation.
    ///
    /// The next state of every cell is computed from the present generation
    /// before any cell changes.
    pub fn tick(&mut self)
        ensures
            final(self)@ == old(self)@.step(),
            final(self)@.wf(),
    {
        proof {
            use_type_invariant(&*self);
        }
        let ghost grid = self@;
        let mut next = self.cells.clone();
        for row in 0..self.height
            invariant
                self@ == grid,
                grid.wf(),
                next@.len() == grid.cells.len(),
                forall|r: int, c: int|
                    0 <= r < row && 0 <= c < grid.width ==> next@[r * grid.width + c]
                        == #[trigger] grid.next_cell(r, c),
        {
            for col in 0..self.width
                invariant
                    self@ == grid,
                    grid.wf(),
                    row < grid.height,
                    next@.len() == grid.cells.len(),
                    forall|r: int, c: int|
                        0 <= r < row && 0 <= c < grid.width ==> next@[r * grid.width + c]
                            == #[trigger] grid.next_cell(r, c),
                    forall|c: int|
                        0 <= c < col ==> next@[row * grid.width + c] == #[trigger] grid.next_cell(
                            row as int,
                            c,
                        ),
            {
                let idx = self.get_index(row, col);
                let cell = self.cells[idx];
                let live_neighbors = self.live_neighbor_count(row, col);
                let ghost before = next@;
                next.set(idx, cell.next(live_neighbors));
                proof {
                    let w = grid.width as int;
                    vstd::arithmetic::div_mod::lemma_small_mod(row as nat, grid.height);
                    vstd::arithmetic::div_mod::lemma_small_mod(col as nat, grid.width);
                    lemma_index_to_position(w, row as int, col as int);
                    assert forall|r: int, c: int| 0 <= r < row && 0 <= c < w implies next@[r * w
                        + c] == #[trigger] grid.next_cell(r, c) by {
                        lemma_index_to_position(w, r, c);
                        lemma_index_in_bounds(w, grid.height as int, r, c);
                        assert(before[r * w + c] == grid.next_cell(r, c));
                    }
                    assert forall|c: int| 0 <= c < col + 1 implies next@[row * w + c]
                        == #[trigger] grid.next_cell(row as int, c) by {
                        lemma_index_to_position(w, row as int, c);
                        lemma_index_in_bounds(w, grid.height as int, row as int, c);
                        if c < col {
                            assert(before[row * w + c] == grid.next_cell(row as int, c));
                        }
                    }
                }
            }
        }
        proof {
            let w = grid.width as int;
            assert forall|i: int| 0 <= i < next@.len() implies next@[i] == grid.step().cells[i] by {
                lemma_position_of_index(w, grid.height as int, i);
                assert(next@[(i / w) * w + i % w] == grid.next_cell(i / w, i % w));
            }
            assert(next@ =~= grid.step().cells);
        }
        self.cells = next;
    }
}

} // verus!
