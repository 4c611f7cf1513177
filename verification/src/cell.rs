//! The two states of a cell and the rule that takes a cell to the next generation.

use vstd::prelude::*;

verus! {

/// The state of one position of the grid.
#[derive(Clone, Copy, Debug, PartialEq, Eq, Structural)]
pub enum Cell {
    Dead,
    Alive,
}

/// The state of a cell in the next generation, given its present state and the
/// number of live cells among its eight neighbours.
///
/// A live cell survives with two or three live neighbours and dies otherwise;
/// a dead cell comes alive with exactly three.
pub open spec fn next_state(cell: Cell, live_neighbors: int) -> Cell {
    match cell {
        Cell::Alive => if live_neighbors == 2 || live_neighbors == 3 {
            Cell::Alive
        } else {
            Cell::Dead
        },
        Cell::Dead => if live_neighbors == 3 {
            Cell::Alive
        } else {
            Cell::Dead
        },
    }
}

impl Cell {
    /// The number that stands for this state in a cell buffer: 0 for a dead
    /// cell, 1 for a live one.
    pub open spec fn value(self) -> int {
        match self {
            Cell::Dead => 0,
            Cell::Alive => 1,
        }
    }

    /// The character that shows this state in a rendering of the grid.
    pub open spec fn glyph(self) -> char {
        match self {
            Cell::Dead => '◻',
            Cell::Alive => '◼',
        }
    }

    /// The glyph of this state, as a string of one character.
    pub fn symbol(self) -> (symbol: &'static str)
        ensures
            symbol@ == seq![self.glyph()],
    {
        proof {
            reveal_strlit("◻");
            reveal_strlit("◼");
        }
        let symbol = match self {
            Cell::Dead => "◻",
            Cell::Alive => "◼",
        };
        assert(symbol@ =~= seq![self.glyph()]);
        symbol
    }

    /// The state as a small integer, 0 for `Dead` and 1 for `Alive`.
    pub fn to_u8(self) -> (n: u8)
        ensures
            n == self.value(),
    {
        match self {
            Cell::Dead => 0,
            Cell::Alive => 1,
        }
    }

    /// The state of this cell in the next generation when `live_neighbors` of
    /// its eight neighbours are alive.
    pub fn next(self, live_neighbors: u8) -> (next: Cell)
        ensures
            next == next_state(self, live_neighbors as int),
    {
        match self {
            Cell::Alive => if live_neighbors == 2 || live_neighbors == 3 {
                Cell::Alive
            } else {
                Cell::Dead
            },
            Cell::Dead => if live_neighbors == 3 {
                Cell::Alive
            } else {
                Cell::Dead
            },
        }
    }
}

} // verus!
