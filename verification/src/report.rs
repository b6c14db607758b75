//! Read-only snapshots of a board for display: the grid as rows of symbols,
//! and one summary line per ship.

use vstd::prelude::*;
use crate::board::{Board, BoardView};
use crate::grid::{CellState, Coordinate, Orientation, BOARD_HEIGHT, BOARD_WIDTH};
use crate::ship::ShipView;

verus! {

/// The symbol that stands for a cell state in a text dump.
pub open spec fn symbol_of(state: CellState) -> char {
    match state {
        CellState::Empty => '~',
        CellState::Occupied => 'S',
        CellState::Hit => 'X',
        CellState::Miss => 'o',
    }
}

/// The symbol that stands for `state` in a text dump: `~` for open water,
/// `S` for a ship, `X` for a hit and `o` for a miss.
pub fn cell_symbol(state: CellState) -> (symbol: char)
    ensures
        symbol == symbol_of(state),
{
    match state {
        CellState::Empty => '~',
        CellState::Occupied => 'S',
        CellState::Hit => 'X',
        CellState::Miss => 'o',
    }
}

/// What a dump says of one ship.
#[derive(Clone, Copy, Debug, PartialEq, Eq, Structural)]
pub struct ShipReport {
    /// Column of the anchor.
    pub column: usize,
    /// Row of the anchor.
    pub row: usize,
    /// Number of cells.
    pub length: usize,
    /// Axis of the ship.
    pub orientation: Orientation,
    /// Number of cells struck so far.
    pub hits: usize,
    /// Whether every cell is struck.
    pub sunk: bool,
}

impl ShipReport {
    /// Whether the report says of `ship` what holds of it.
    pub open spec fn describes(self, ship: ShipView) -> bool {
        &&& self.column == ship.column
        &&& self.row == ship.row
        &&& self.length == ship.length
        &&& self.orientation == ship.orientation
        &&& self.hits == ship.hit_count()
        &&& self.sunk == ship.is_sunk()
    }
}

/// Whether `rows` shows the grid of `board`: one row of symbols per row of
/// the grid, top row first, each from column zero.
pub open spec fn depicts(rows: Seq<Vec<char>>, board: BoardView) -> bool {
    &&& rows.len() == BOARD_HEIGHT
    &&& forall|r: int| 0 <= r < BOARD_HEIGHT ==> (#[trigger] rows[r])@.len() == BOARD_WIDTH
    &&& forall|c: int, r: int|
        0 <= c < BOARD_WIDTH && 0 <= r < BOARD_HEIGHT ==> rows[r]@[c] == symbol_of(
            #[trigger] board.cells[(c, r)],
        )
}

/// Whether `reports` holds one true report per ship of `board`, in the order
/// of placement.
pub open spec fn reports_on(reports: Seq<ShipReport>, board: BoardView) -> bool {
    &&& reports.len() == board.ships.len()
    &&& forall|i: int| 0 <= i < reports.len() ==> (#[trigger] reports[i]).describes(board.ships[i])
}

impl Board {
    /// The grid as rows of symbols, top row first, each row from column zero.
    pub fn render(&self) -> (rows: Vec<Vec<char>>)
        requires
            self.wf(),
        ensures
            depicts(rows@, self@),
    {
        let mut rows: Vec<Vec<char>> = Vec::new();
        let mut r: usize = 0;
        while r < BOARD_HEIGHT
            invariant
                self.wf(),
                r <= BOARD_HEIGHT,
                rows@.len() == r,
                forall|j: int| 0 <= j < r ==> (#[trigger] rows@[j])@.len() == BOARD_WIDTH,
                forall|c: int, j: int|
                    0 <= c < BOARD_WIDTH && 0 <= j < r ==> rows@[j]@[c] == symbol_of(
                        #[trigger] self@.cells[(c, j)],
                    ),
            decreases BOARD_HEIGHT - r,
        {
            let mut line: Vec<char> = Vec::new();
            let mut c: usize = 0;
            while c < BOARD_WIDTH
                invariant
                    self.wf(),
                    r < BOARD_HEIGHT,
                    c <= BOARD_WIDTH,
                    line@.len() == c,
                    forall|j: int|
                        0 <= j < c ==> line@[j] == symbol_of(#[trigger] self@.cells[(j, r as int)]),
                decreases BOARD_WIDTH - c,
            {
                match Coordinate::make(c, r) {
                    Ok(cell) => {
                        line.push(cell_symbol(self.cell_state(cell)));
                    },
                    Err(_) => {},
                }
                c += 1;
            }
            rows.push(line);
            r += 1;
        }
        rows
    }

    /// One report per ship, in the order of placement.
    pub fn ship_reports(&self) -> (reports: Vec<ShipReport>)
        requires
            self.wf(),
        ensures
            reports_on(reports@, self@),
    {
        let ships = self.ships();
        let mut reports: Vec<ShipReport> = Vec::new();
        let mut i: usize = 0;
        while i < ships.len()
            invariant
                self.wf(),
                ships@.len() == self@.ships.len(),
                forall|j: int|
                    0 <= j < ships@.len() ==> (#[trigger] ships@[j]).wf() && ships@[j]@
                        == self@.ships[j],
                i <= ships@.len(),
                reports@.len() == i,
                forall|j: int|
                    0 <= j < i ==> (#[trigger] reports@[j]).describes(self@.ships[j]),
            decreases ships@.len() - i,
        {
            let ship = &ships[i];
            let anchor: Coordinate = ship.anchor();
            let report = ShipReport {
                column: anchor.column(),
                row: anchor.row(),
                length: ship.length(),
                orientation: ship.orientation(),
                hits: ship.hit_count(),
                sunk: ship.is_sunk(),
            };
            reports.push(report);
            i += 1;
        }
        reports
    }
}

} // verus!
