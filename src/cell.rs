//! The state of a single cell and the rule that decides its next state.
use vstd::prelude::*;

verus! {

/// A cell of the grid: dead or alive.
#[derive(Clone, Copy, Debug, PartialEq, Eq, Structural)]
pub enum Cell {
    Dead,
    Alive,
}

impl Cell {
    /// The cell as a number: 1 when alive, 0 when dead.
    pub open spec fn value(self) -> int {
        match self {
            Cell::Dead => 0,
            Cell::Alive => 1,
        }
    }

    /// The other state.
    pub open spec fn toggled(self) -> Cell {
        match self {
            Cell::Dead => Cell::Alive,
            Cell::Alive => Cell::Dead,
        }
    }

    /// Flips the cell between dead and alive.
    pub fn toggle(&mut self)
        ensures
            *final(self) == old(self).toggled(),
    {
        *self = match *self {
            Cell::Dead => Cell::Alive,
            Cell::Alive => Cell::Dead,
        };
    }

    /// The cell as a byte: 1 when alive, 0 when dead.
    pub fn as_u8(&self) -> (r: u8)
        ensures
            r as int == self.value(),
    {
        match *self {
            Cell::Dead => 0,
            Cell::Alive => 1,
        }
    }

    /// The state of this cell in the next generation, given how many of its
    /// neighbours are alive now.
    pub fn next_state(self, live_neighbors: u8) -> (r: Cell)
        ensures
            r == rule(self, live_neighbors as int),
            self == Cell::Alive && live_neighbors < 2 ==> r == Cell::Dead,
            self == Cell::Alive && (live_neighbors == 2 || live_neighbors == 3) ==> r
                == Cell::Alive,
            self == Cell::Alive && live_neighbors > 3 ==> r == Cell::Dead,
            self == Cell::Dead && live_neighbors == 3 ==> r == Cell::Alive,
            self == Cell::Dead && live_neighbors != 3 ==> r == Cell::Dead,
    {
        match self {
            Cell::Alive => {
                if live_neighbors < 2 {
                    Cell::Dead
                } else if live_neighbors <= 3 {
                    Cell::Alive
                } else {
                    Cell::Dead
                }
            },
            Cell::Dead => {
                if live_neighbors == 3 {
                    Cell::Alive
                } else {
                    Cell::Dead
                }
            },
        }
    }
}

/// The rule of the game: a live cell stays alive with two or three live
/// neighbours and dies otherwise; a dead cell comes alive with exactly three.
pub open spec fn rule(c: Cell, live_neighbors: int) -> Cell {
    match c {
        Cell::Alive => if live_neighbors == 2 || live_neighbors == 3 {
            Cell::Alive
        } else {
            Cell::Dead
        },
        Cell::Dead => if live_neighbors == 3 {
            Cell::Alive
        } else {
            Cell::Dead
        },
    }
}

} // verus!
