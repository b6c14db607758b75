//! The grid model: board dimensions, bounds-checked coordinates, cell states
//! and the outcomes and errors that the engine reports.

use vstd::prelude::*;

verus! {

/// Number of columns of every board.
pub const BOARD_WIDTH: usize = 10;

/// Number of rows of every board.
pub const BOARD_HEIGHT: usize = 9;

/// Whether the pair (column, row) names a cell of the grid.
pub open spec fn in_grid(p: (int, int)) -> bool {
    0 <= p.0 < BOARD_WIDTH && 0 <= p.1 < BOARD_HEIGHT
}

/// What one cell of a board holds.
#[derive(Clone, Copy, Debug, PartialEq, Eq, Structural, Hash)]
pub enum CellState {
    /// No ship, not fired at.
    Empty,
    /// Part of a ship, not fired at.
    Occupied,
    /// Part of a ship, struck by a shot.
    Hit,
    /// No ship, a shot landed here.
    Miss,
}

/// The axis along which a ship extends from its anchor.
#[derive(Clone, Copy, Debug, PartialEq, Eq, Structural, Hash)]
pub enum Orientation {
    /// Towards growing columns.
    Horizontal,
    /// Towards growing rows.
    Vertical,
}

/// Which of the two players is meant.
#[derive(Clone, Copy, Debug, PartialEq, Eq, Structural, Hash)]
pub enum Players {
    /// The player who owns the first board.
    PlayerOne,
    /// The player who owns the second board.
    PlayerTwo,
}

/// Why a coordinate or a placement was rejected.
#[derive(Clone, Copy, Debug, PartialEq, Eq, Structural, Hash)]
pub enum PlacementError {
    /// The coordinate, or a cell of the ship's footprint, lies outside the grid.
    OutOfBounds,
    /// The footprint meets a ship that is already on the board.
    Overlap,
    /// Every allotted ship has been placed.
    QuotaExhausted,
}

/// Why a shot was rejected.
#[derive(Clone, Copy, Debug, PartialEq, Eq, Structural, Hash)]
pub enum FireError {
    /// The target cell was already resolved as a hit or a miss.
    AlreadyFired,
}

/// What an accepted shot did.
#[derive(Clone, Copy, Debug, PartialEq, Eq, Structural, Hash)]
pub enum FireOutcome {
    /// The target cell held no ship.
    Miss,
    /// The target cell held a ship; `sunk` says whether that ship is now sunk.
    Hit { sunk: bool },
}

/// A cell of the grid. Every value of this type lies inside the grid.
#[derive(Clone, Copy, Debug, PartialEq, Eq, Structural, Hash, PartialOrd, Ord)]
pub struct Coordinate {
    column: usize,
    row: usize,
}

impl View for Coordinate {
    type V = (int, int);

    /// The pair (column, row).
    closed spec fn view(&self) -> (int, int) {
        (self.column as int, self.row as int)
    }
}

impl Coordinate {
    #[verifier::type_invariant]
    spec fn inside(self) -> bool {
        self.column < BOARD_WIDTH && self.row < BOARD_HEIGHT
    }

    /// Builds the coordinate (column, row), or rejects a pair outside the grid.
    pub fn make(column: usize, row: usize) -> (res: Result<Coordinate, PlacementError>)
        ensures
            match res {
                Ok(c) => in_grid((column as int, row as int)) && c@ == (column as int, row as int),
                Err(e) => !in_grid((column as int, row as int)) && e == PlacementError::OutOfBounds,
            },
    {
        if column < BOARD_WIDTH && row < BOARD_HEIGHT {
            Ok(Coordinate { column, row })
        } else {
            Err(PlacementError::OutOfBounds)
        }
    }

    /// The column, counted from zero.
    pub fn column(&self) -> (c: usize)
        ensures
            c == self@.0,
            in_grid(self@),
    {
        proof {
            use_type_invariant(self);
        }
        self.column
    }

    /// The row, counted from zero.
    pub fn row(&self) -> (r: usize)
        ensures
            r == self@.1,
            in_grid(self@),
    {
        proof {
            use_type_invariant(self);
        }
        self.row
    }
}

} // verus!
