//! The two-valued cell state and the rule that decides its next state.

use vstd::prelude::*;

verus! {

/// The state of one position of the grid.
#[derive(Clone, Copy, Debug, PartialEq, Eq, Structural)]
pub enum Cell {
    Dead,
    Alive,
}

/// The state a cell takes in the next generation, given its current state and
/// the number of live cells among its eight neighbours: a cell lives on with
/// two or three live neighbours, and is born with exactly three.
pub open spec fn next_state(cell: Cell, live_neighbors: nat) -> Cell {
    if live_neighbors == 3 || (cell == Cell::Alive && live_neighbors == 2) {
        Cell::Alive
    } else {
        Cell::Dead
    }
}

impl Cell {
    /// `1` for a live cell and `0` for a dead one.
    pub open spec fn population(self) -> nat {
        match self {
            Cell::Dead => 0,
            Cell::Alive => 1,
        }
    }

    /// Whether the cell is alive.
    pub fn is_alive(self) -> (alive: bool)
        ensures
            alive == (self == Cell::Alive),
            alive == (self.population() == 1),
    {
        match self {
            Cell::Dead => false,
            Cell::Alive => true,
        }
    }

    /// The state of this cell in the next generation when `live_neighbors` of
    /// its eight neighbours are alive.
    pub fn next(self, live_neighbors: usize) -> (next: Cell)
        ensures
            next == next_state(self, live_neighbors as nat),
    {
        match self {
            Cell::Alive => {
                if live_neighbors < 2 || 3 < live_neighbors {
                    Cell::Dead
                } else {
                    Cell::Alive
                }
            },
            Cell::Dead => {
                if live_neighbors == 3 {
                    Cell::Alive
                } else {
                    Cell::Dead
                }
            },
        }
    }
}

/// The rule, case by case: a live cell with fewer than two live neighbours
/// dies, one with more than three dies, one with two or three lives on; a dead
/// cell with exactly three live neighbours becomes alive, and with any other
/// count stays dead.
pub proof fn rule_cases(cell: Cell, live_neighbors: nat)
    ensures
        cell == Cell::Alive && live_neighbors < 2 ==> next_state(cell, live_neighbors)
            == Cell::Dead,
        cell == Cell::Alive && live_neighbors > 3 ==> next_state(cell, live_neighbors)
            == Cell::Dead,
        cell == Cell::Alive && (live_neighbors == 2 || live_neighbors == 3) ==> next_state(
            cell,
            live_neighbors,
        ) == Cell::Alive,
        cell == Cell::Dead && live_neighbors == 3 ==> next_state(cell, live_neighbors)
            == Cell::Alive,
        cell == Cell::Dead && live_neighbors != 3 ==> next_state(cell, live_neighbors)
            == Cell::Dead,
{
}

} // verus!
