//! A player: an identity, a board, and a quota of ships to place.
//!
//! The fleet follows the classic sizes. The ships are placed in the order
//! 5, 4, 3, 3, 2, and a quota of more than five ships starts that round again.

use vstd::prelude::*;
use crate::board::{Board, BoardView};
use crate::grid::{
    CellState, Coordinate, FireError, FireOutcome, Orientation, PlacementError, Players,
};
use crate::report::{depicts, reports_on, ShipReport};
use crate::ship::Ship;

verus! {

/// The length of the ship that is placed after `placed` others.
pub open spec fn fleet_length(placed: int) -> int {
    let turn = placed % 5;
    if turn == 0 {
        5
    } else if turn == 1 {
        4
    } else if turn == 2 || turn == 3 {
        3
    } else {
        2
    }
}

/// The length of the ship that is placed after `placed` others.
pub fn next_fleet_length(placed: usize) -> (length: usize)
    ensures
        length == fleet_length(placed as int),
        2 <= length <= 5,
{
    let turn: usize = placed % 5;
    if turn == 0 {
        5
    } else if turn == 1 {
        4
    } else if turn == 2 || turn == 3 {
        3
    } else {
        2
    }
}

/// The mathematical model of a player.
pub struct PlayerView {
    /// Which player this is.
    pub identity: Players,
    /// The player's board.
    pub board: BoardView,
    /// The number of ships that the player is allotted.
    pub ship_count: int,
}

impl PlayerView {
    /// A player at the start of a game.
    pub open spec fn fresh(ship_count: int, identity: Players) -> PlayerView {
        PlayerView { identity, board: BoardView::empty(), ship_count }
    }

    /// The board satisfies its invariant and holds no more ships than allotted.
    pub open spec fn wf(self) -> bool {
        &&& self.board.wf()
        &&& self.board.ships.len() <= self.ship_count
    }

    /// The number of ships that are still to be placed.
    pub open spec fn remaining(self) -> int {
        self.ship_count - self.board.ships.len()
    }

    /// What a request to place the next ship is answered with.
    pub open spec fn place_result(
        self,
        anchor: (int, int),
        orientation: Orientation,
    ) -> Result<(), PlacementError> {
        if self.remaining() <= 0 {
            Err(PlacementError::QuotaExhausted)
        } else {
            self.board.place_result(
                anchor,
                fleet_length(self.board.ships.len() as int),
                orientation,
            )
        }
    }

    /// The player after a request to place the next ship.
    pub open spec fn after_place(self, anchor: (int, int), orientation: Orientation) -> PlayerView {
        if self.remaining() <= 0 {
            self
        } else {
            PlayerView {
                board: self.board.after_place(
                    anchor,
                    fleet_length(self.board.ships.len() as int),
                    orientation,
                ),
                ..self
            }
        }
    }

    /// The player after a shot at the cell `p` of the player's board.
    pub open spec fn after_fire(self, p: (int, int)) -> PlayerView {
        PlayerView { board: self.board.after_fire(p), ..self }
    }

    /// An accepted placement uses up one ship of the quota; a rejected one
    /// changes nothing.
    pub proof fn lemma_place_consumes_quota(self, anchor: (int, int), orientation: Orientation)
        requires
            self.wf(),
        ensures
            self.after_place(anchor, orientation).wf(),
            self.place_result(anchor, orientation) is Ok ==> self.after_place(
                anchor,
                orientation,
            ).remaining() == self.remaining() - 1,
            self.place_result(anchor, orientation) is Err ==> self.after_place(anchor, orientation)
                == self,
    {
        if self.remaining() > 0 {
            self.board.lemma_after_place_wf(
                anchor,
                fleet_length(self.board.ships.len() as int),
                orientation,
            );
        }
    }
}

/// One of the two players.
#[derive(Debug)]
pub struct Player {
    identity: Players,
    board: Board,
    ship_count: usize,
}

impl View for Player {
    type V = PlayerView;

    closed spec fn view(&self) -> PlayerView {
        PlayerView {
            identity: self.identity,
            board: self.board@,
            ship_count: self.ship_count as int,
        }
    }
}

impl Player {
    /// The board is well formed and holds no more ships than allotted.
    pub closed spec fn wf(&self) -> bool {
        &&& self.board.wf()
        &&& self@.wf()
    }

    /// The model of a well-formed player is well formed.
    pub proof fn lemma_view_wf(&self)
        requires
            self.wf(),
        ensures
            self@.wf(),
    {
    }

    /// A player with an empty board and `ship_count` ships to place.
    pub fn new_player(ship_count: usize, identity: Players) -> (player: Player)
        ensures
            player.wf(),
            player@ == PlayerView::fresh(ship_count as int, identity),
    {
        let board = Board::new();
        proof {
            board.lemma_view_wf();
        }
        Player { identity, board, ship_count }
    }

    /// Which player this is.
    pub fn identity(&self) -> (who: Players)
        ensures
            who == self@.identity,
    {
        self.identity
    }

    /// The player's board, for reading.
    pub fn board(&self) -> (board: &Board)
        requires
            self.wf(),
        ensures
            board.wf(),
            board@ == self@.board,
    {
        &self.board
    }

    /// The number of ships that are still to be placed.
    pub fn ships_remaining(&self) -> (n: usize)
        requires
            self.wf(),
        ensures
            n == self@.remaining(),
    {
        self.ship_count - self.board.ships().len()
    }

    /// The lengths of the ships that are still to be placed, the next one
    /// first.
    pub fn remaining_quota(&self) -> (lengths: Vec<usize>)
        requires
            self.wf(),
        ensures
            lengths@.len() == self@.remaining(),
            forall|k: int|
                0 <= k < lengths@.len() ==> #[trigger] lengths@[k] == fleet_length(
                    self@.board.ships.len() + k,
                ),
    {
        let placed: usize = self.board.ships().len();
        let mut lengths: Vec<usize> = Vec::new();
        let mut next: usize = placed;
        while next < self.ship_count
            invariant
                placed <= next <= self.ship_count,
                lengths@.len() == next - placed,
                forall|k: int|
                    0 <= k < lengths@.len() ==> #[trigger] lengths@[k] == fleet_length(placed + k),
            decreases self.ship_count - next,
        {
            lengths.push(next_fleet_length(next));
            next += 1;
        }
        lengths
    }

    /// Places the next ship of the quota at `anchor`. Rejected with
    /// `QuotaExhausted` where no ship is left to place, and else as the board
    /// rejects the ship. Only an accepted request changes anything.
    pub fn place_ship(
        &mut self,
        anchor: Coordinate,
        orientation: Orientation,
    ) -> (res: Result<(), PlacementError>)
        requires
            old(self).wf(),
        ensures
            final(self).wf(),
            res == old(self)@.place_result(anchor@, orientation),
            final(self)@ == old(self)@.after_place(anchor@, orientation),
    {
        let placed: usize = self.board.ships().len();
        if placed >= self.ship_count {
            return Err(PlacementError::QuotaExhausted);
        }
        proof {
            old(self)@.lemma_place_consumes_quota(anchor@, orientation);
        }
        let length: usize = next_fleet_length(placed);
        self.board.place_ship(anchor, length, orientation)
    }

    /// Resolves a shot of the opponent at the cell `coord` of this player's
    /// board.
    pub fn fire(&mut self, coord: Coordinate) -> (res: Result<FireOutcome, FireError>)
        requires
            old(self).wf(),
        ensures
            final(self).wf(),
            res == old(self)@.board.fire_result(coord@),
            final(self)@ == old(self)@.after_fire(coord@),
    {
        let ghost before = self.board@;
        let res = self.board.fire(coord);
        proof {
            self.board.lemma_view_wf();
            assert(self.board@.ships.len() == before.ships.len());
        }
        res
    }

    /// Whether every ship that the player has placed is sunk.
    pub fn all_sunk(&self) -> (b: bool)
        requires
            self.wf(),
        ensures
            b == self@.board.all_sunk(),
    {
        self.board.all_sunk()
    }

    /// The state of the cell at `coord` of the player's board.
    pub fn cell_state(&self, coord: Coordinate) -> (state: CellState)
        requires
            self.wf(),
        ensures
            state == self@.board.cells[coord@],
    {
        self.board.cell_state(coord)
    }

    /// The ships that the player has placed, in order.
    pub fn ship_list(&self) -> (list: &Vec<Ship>)
        requires
            self.wf(),
        ensures
            list@.len() == self@.board.ships.len(),
            forall|i: int|
                0 <= i < list@.len() ==> (#[trigger] list@[i]).wf() && list@[i]@
                    == self@.board.ships[i],
    {
        self.board.ships()
    }

    /// The player's grid as rows of symbols.
    pub fn print_board(&self) -> (rows: Vec<Vec<char>>)
        requires
            self.wf(),
        ensures
            depicts(rows@, self@.board),
    {
        self.board.render()
    }

    /// One report per ship that the player has placed.
    pub fn print_ships(&self) -> (reports: Vec<ShipReport>)
        requires
            self.wf(),
        ensures
            reports_on(reports@, self@.board),
    {
        self.board.ship_reports()
    }
}

} // verus!
