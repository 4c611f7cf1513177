//! The pattern that a new universe starts from: a sparse periodic stripe and
//! a few shapes placed by hand.

use vstd::prelude::*;
use crate::cell::Cell;
use crate::grid::Grid;

verus! {

/// The number of columns of a new universe.
pub const SEED_WIDTH: u32 = 64;

/// The number of rows of a new universe.
pub const SEED_HEIGHT: u32 = 64;

/// The stripe repeats every `STRIPE_PERIOD` cells of the buffer.
pub const STRIPE_PERIOD: u32 = 196;

/// Where in each period the first live cell of the stripe stands; the second
/// stands one row of the grid further on.
pub const STRIPE_OFFSET: u32 = 55;

/// The index in the buffer of a new universe at which `(row, col)` stands.
pub open spec fn seed_index(row: int, col: int) -> int {
    row * SEED_WIDTH + col
}

/// The cell at `index` in the buffer belongs to the stripe: in every run of
/// `STRIPE_PERIOD` cells two are alive, `SEED_WIDTH` cells apart.
pub open spec fn on_stripe(index: int) -> bool {
    index % (STRIPE_PERIOD as int) == STRIPE_OFFSET || index % (STRIPE_PERIOD as int)
        == STRIPE_OFFSET + SEED_WIDTH
}

/// The positions `(row, col)` of the live cells placed by hand: a corner of
/// three cells, two blocks, and a cluster of nine cells.
pub open spec fn seed_shapes() -> Seq<(u32, u32)> {
    seq![
        (11, 11), (11, 12), (12, 12),
        (31, 11), (31, 12), (32, 11), (32, 12),
        (21, 21), (21, 24),
        (22, 25),
        (23, 21), (23, 25),
        (24, 22), (24, 23), (24, 24), (24, 25),
        (22, 61), (22, 62), (23, 61), (23, 62),
    ]
}

/// The cell at `(row, col)` of a new universe is alive: it belongs to the
/// stripe or to one of the shapes.
pub open spec fn seed_alive(row: int, col: int) -> bool {
    on_stripe(seed_index(row, col)) || seed_shapes().contains((row as u32, col as u32))
}

/// The state of the cell at `(row, col)` of a new universe.
pub open spec fn seed_cell(row: int, col: int) -> Cell {
    if seed_alive(row, col) {
        Cell::Alive
    } else {
        Cell::Dead
    }
}

/// The grid that a new universe holds.
pub open spec fn seed_grid() -> Grid {
    Grid {
        width: SEED_WIDTH as nat,
        height: SEED_HEIGHT as nat,
        cells: Seq::new(
            (SEED_WIDTH * SEED_HEIGHT) as nat,
            |i: int| seed_cell(i / (SEED_WIDTH as int), i % (SEED_WIDTH as int)),
        ),
    }
}

/// The live cell with number `k` among those placed by hand stands at
/// `index` in the buffer.
pub open spec fn shape_at(k: int, index: int) -> bool {
    &&& 0 <= k < seed_shapes().len()
    &&& seed_index(seed_shapes()[k].0 as int, seed_shapes()[k].1 as int) == index
}

/// One of the first `count` live cells placed by hand stands at `index` in
/// the buffer.
pub open spec fn shape_among(count: int, index: int) -> bool {
    exists|k: int| k < count && shape_at(k, index)
}

/// Twenty cells are placed by hand, all of them inside the grid.
pub proof fn lemma_shapes_in_grid()
    ensures
        seed_shapes().len() == 20,
        forall|k: int|
            0 <= k < 20 ==> (#[trigger] seed_shapes()[k]).0 < SEED_HEIGHT && seed_shapes()[k].1
                < SEED_WIDTH,
{
}

/// The cell at `index` in the buffer of a new universe is alive exactly if
/// the stripe passes through it or one of the cells placed by hand stands
/// there.
pub proof fn lemma_seed_cell(index: int)
    requires
        0 <= index < SEED_WIDTH * SEED_HEIGHT,
    ensures
        seed_grid().cells[index] == Cell::Alive <==> on_stripe(index) || shape_among(20, index),
{
    lemma_shapes_in_grid();
    let shapes = seed_shapes();
    let row = index / (SEED_WIDTH as int);
    let col = index % (SEED_WIDTH as int);
    let position = (row as u32, col as u32);
    assert(seed_index(row, col) == index);
    if shapes.contains(position) {
        let k = choose|k: int| 0 <= k < shapes.len() && shapes[k] == position;
        assert(k < 20 && shape_at(k, index));
    }
    if shape_among(20, index) {
        let k = choose|k: int| k < 20 && shape_at(k, index);
        assert(shapes[k] == position);
    }
}

} // verus!
