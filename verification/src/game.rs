//! The game: two players, the dispatch of placements and shots to the board
//! they concern, and the winner.

use vstd::prelude::*;
use crate::grid::{
    in_grid, CellState, Coordinate, FireError, FireOutcome, Orientation, PlacementError, Players,
};
use crate::player::{Player, PlayerView};
use crate::report::{depicts, reports_on, ShipReport};
use crate::ship::Ship;

verus! {

/// The player that `who` plays against.
pub open spec fn opponent_of(who: Players) -> Players {
    match who {
        Players::PlayerOne => Players::PlayerTwo,
        Players::PlayerTwo => Players::PlayerOne,
    }
}

/// The player that `who` plays against.
pub fn opponent(who: Players) -> (other: Players)
    ensures
        other == opponent_of(who),
{
    match who {
        Players::PlayerOne => Players::PlayerTwo,
        Players::PlayerTwo => Players::PlayerOne,
    }
}

/// Where a game stands. The phase is reported, not enforced: a shot that
/// falls during setup is resolved like any other.
#[derive(Clone, Copy, Debug, PartialEq, Eq, Structural)]
pub enum Phase {
    /// A player still has ships to place.
    Setup,
    /// Every ship is placed and each fleet has a ship afloat.
    InPlay,
    /// Every ship is placed and a fleet is sunk.
    Finished,
}

/// The mathematical model of a game.
pub struct GameView {
    /// The first player.
    pub player_one: PlayerView,
    /// The second player.
    pub player_two: PlayerView,
}

impl GameView {
    /// A game at its start: two players with empty boards and the same quota.
    pub open spec fn fresh(ship_count: int) -> GameView {
        GameView {
            player_one: PlayerView::fresh(ship_count, Players::PlayerOne),
            player_two: PlayerView::fresh(ship_count, Players::PlayerTwo),
        }
    }

    /// Both players are well formed and each stands under its own identity.
    pub open spec fn wf(self) -> bool {
        &&& self.player_one.wf()
        &&& self.player_two.wf()
        &&& self.player_one.identity == Players::PlayerOne
        &&& self.player_two.identity == Players::PlayerTwo
    }

    /// The player of the given identity.
    pub open spec fn player(self, who: Players) -> PlayerView {
        match who {
            Players::PlayerOne => self.player_one,
            Players::PlayerTwo => self.player_two,
        }
    }

    /// The game with the player of the given identity replaced.
    pub open spec fn with_player(self, who: Players, player: PlayerView) -> GameView {
        match who {
            Players::PlayerOne => GameView { player_one: player, ..self },
            Players::PlayerTwo => GameView { player_two: player, ..self },
        }
    }

    /// The game after `who` asked to place the next ship.
    pub open spec fn after_place(
        self,
        who: Players,
        anchor: (int, int),
        orientation: Orientation,
    ) -> GameView {
        self.with_player(who, self.player(who).after_place(anchor, orientation))
    }

    /// The game after a shot at the cell `p` of the board of `defender`.
    pub open spec fn after_fire(self, defender: Players, p: (int, int)) -> GameView {
        self.with_player(defender, self.player(defender).after_fire(p))
    }

    /// The player whose opponent's fleet is sunk while the player's own is
    /// not; nobody where neither fleet is sunk, and nobody where both are.
    pub open spec fn winner(self) -> Option<Players> {
        let one_lost = self.player_one.board.all_sunk();
        let two_lost = self.player_two.board.all_sunk();
        if two_lost && !one_lost {
            Some(Players::PlayerOne)
        } else if one_lost && !two_lost {
            Some(Players::PlayerTwo)
        } else {
            None
        }
    }

    /// Where the game stands.
    pub open spec fn phase(self) -> Phase {
        if self.player_one.remaining() > 0 || self.player_two.remaining() > 0 {
            Phase::Setup
        } else if self.player_one.board.all_sunk() || self.player_two.board.all_sunk() {
            Phase::Finished
        } else {
            Phase::InPlay
        }
    }

    /// The game after the fixed trial run on the first player's board: two
    /// placements, then four shots.
    pub open spec fn after_trial(self) -> GameView {
        let one = Players::PlayerOne;
        self.after_place(one, (2, 2), Orientation::Horizontal).after_place(
            one,
            (0, 0),
            Orientation::Vertical,
        ).after_fire(one, (0, 3)).after_fire(one, (2, 3)).after_fire(one, (0, 0)).after_fire(
            one,
            (0, 1),
        )
    }
}

/// A game between two players.
#[derive(Debug)]
pub struct BattleShipGame {
    player_one: Player,
    player_two: Player,
}

impl View for BattleShipGame {
    type V = GameView;

    closed spec fn view(&self) -> GameView {
        GameView { player_one: self.player_one@, player_two: self.player_two@ }
    }
}

impl BattleShipGame {
    /// Both players are well formed and each stands under its own identity.
    pub closed spec fn wf(&self) -> bool {
        &&& self.player_one.wf()
        &&& self.player_two.wf()
        &&& self@.wf()
    }

    /// The model of a well-formed game is well formed.
    pub proof fn lemma_view_wf(&self)
        requires
            self.wf(),
        ensures
            self@.wf(),
    {
    }

    /// A game in which each player has `ship_count` ships to place.
    pub fn init_game(ship_count: usize) -> (game: BattleShipGame)
        ensures
            game.wf(),
            game@ == GameView::fresh(ship_count as int),
    {
        let player_one = Player::new_player(ship_count, Players::PlayerOne);
        let player_two = Player::new_player(ship_count, Players::PlayerTwo);
        proof {
            player_one.lemma_view_wf();
            player_two.lemma_view_wf();
        }
        BattleShipGame { player_one, player_two }
    }

    /// The player of the given identity, for reading.
    pub fn player(&self, who: Players) -> (player: &Player)
        requires
            self.wf(),
        ensures
            player.wf(),
            player@ == self@.player(who),
    {
        match who {
            Players::PlayerOne => &self.player_one,
            Players::PlayerTwo => &self.player_two,
        }
    }

    /// Places the next ship of `who` at `anchor` on the board of `who`.
    pub fn place_ship(
        &mut self,
        who: Players,
        anchor: Coordinate,
        orientation: Orientation,
    ) -> (res: Result<(), PlacementError>)
        requires
            old(self).wf(),
        ensures
            final(self).wf(),
            res == old(self)@.player(who).place_result(anchor@, orientation),
            final(self)@ == old(self)@.after_place(who, anchor@, orientation),
    {
        let res = match who {
            Players::PlayerOne => self.player_one.place_ship(anchor, orientation),
            Players::PlayerTwo => self.player_two.place_ship(anchor, orientation),
        };
        proof {
            self.player_one.lemma_view_wf();
            self.player_two.lemma_view_wf();
        }
        res
    }

    /// Resolves a shot at the cell `coord` of the board of `defender`.
    pub fn fire(
        &mut self,
        defender: Players,
        coord: Coordinate,
    ) -> (res: Result<FireOutcome, FireError>)
        requires
            old(self).wf(),
        ensures
            final(self).wf(),
            res == old(self)@.player(defender).board.fire_result(coord@),
            final(self)@ == old(self)@.after_fire(defender, coord@),
    {
        let res = match defender {
            Players::PlayerOne => self.player_one.fire(coord),
            Players::PlayerTwo => self.player_two.fire(coord),
        };
        proof {
            self.player_one.lemma_view_wf();
            self.player_two.lemma_view_wf();
        }
        res
    }

    /// Resolves a shot of `attacker` at the cell `coord` of the opponent's
    /// board.
    pub fn submit_shot(
        &mut self,
        attacker: Players,
        coord: Coordinate,
    ) -> (res: Result<FireOutcome, FireError>)
        requires
            old(self).wf(),
        ensures
            final(self).wf(),
            res == old(self)@.player(opponent_of(attacker)).board.fire_result(coord@),
            final(self)@ == old(self)@.after_fire(opponent_of(attacker), coord@),
    {
        self.fire(opponent(attacker), coord)
    }

    /// The state of the cell at `coord` of the board of `who`.
    pub fn cell_state(&self, who: Players, coord: Coordinate) -> (state: CellState)
        requires
            self.wf(),
        ensures
            state == self@.player(who).board.cells[coord@],
    {
        self.player(who).cell_state(coord)
    }

    /// The ships that `who` has placed, in order.
    pub fn ship_list(&self, who: Players) -> (list: &Vec<Ship>)
        requires
            self.wf(),
        ensures
            list@.len() == self@.player(who).board.ships.len(),
            forall|i: int|
                0 <= i < list@.len() ==> (#[trigger] list@[i]).wf() && list@[i]@ == self@.player(
                    who,
                ).board.ships[i],
    {
        self.player(who).ship_list()
    }

    /// The winner, if the game has one.
    pub fn winner(&self) -> (who: Option<Players>)
        requires
            self.wf(),
        ensures
            who == self@.winner(),
    {
        let one_lost: bool = self.player_one.all_sunk();
        let two_lost: bool = self.player_two.all_sunk();
        if two_lost && !one_lost {
            Some(Players::PlayerOne)
        } else if one_lost && !two_lost {
            Some(Players::PlayerTwo)
        } else {
            None
        }
    }

    /// Where the game stands.
    pub fn phase(&self) -> (phase: Phase)
        requires
            self.wf(),
        ensures
            phase == self@.phase(),
    {
        if self.player_one.ships_remaining() > 0 || self.player_two.ships_remaining() > 0 {
            Phase::Setup
        } else if self.player_one.all_sunk() || self.player_two.all_sunk() {
            Phase::Finished
        } else {
            Phase::InPlay
        }
    }

    /// The first player's grid as rows of symbols.
    pub fn print_p1_board(&self) -> (rows: Vec<Vec<char>>)
        requires
            self.wf(),
        ensures
            depicts(rows@, self@.player_one.board),
    {
        self.player_one.print_board()
    }

    /// One report per ship that the first player has placed.
    pub fn print_p1_ships(&self) -> (reports: Vec<ShipReport>)
        requires
            self.wf(),
        ensures
            reports_on(reports@, self@.player_one.board),
    {
        self.player_one.print_ships()
    }

    /// Asks the first player to place the next ship at (column, row).
    fn trial_place(&mut self, column: usize, row: usize, orientation: Orientation)
        requires
            old(self).wf(),
            in_grid((column as int, row as int)),
        ensures
            final(self).wf(),
            final(self)@ == old(self)@.after_place(
                Players::PlayerOne,
                (column as int, row as int),
                orientation,
            ),
    {
        match Coordinate::make(column, row) {
            Ok(anchor) => {
                let _ = self.place_ship(Players::PlayerOne, anchor, orientation);
            },
            Err(_) => {},
        }
    }

    /// Fires at the cell (column, row) of the first player's board.
    fn trial_fire(&mut self, column: usize, row: usize)
        requires
            old(self).wf(),
            in_grid((column as int, row as int)),
        ensures
            final(self).wf(),
            final(self)@ == old(self)@.after_fire(Players::PlayerOne, (column as int, row as int)),
    {
        match Coordinate::make(column, row) {
            Ok(target) => {
                let _ = self.fire(Players::PlayerOne, target);
            },
            Err(_) => {},
        }
    }

    /// A fixed trial run on the first player's board: the next two ships go
    /// to (2, 2), horizontal, and to (0, 0), vertical; then shots fall on
    /// (0, 3), (2, 3), (0, 0) and (0, 1). Whatever is rejected is passed over.
    pub fn test(&mut self)
        requires
            old(self).wf(),
        ensures
            final(self).wf(),
            final(self)@ == old(self)@.after_trial(),
    {
        self.trial_place(2, 2, Orientation::Horizontal);
        self.trial_place(0, 0, Orientation::Vertical);
        self.trial_fire(0, 3);
        self.trial_fire(2, 3);
        self.trial_fire(0, 0);
        self.trial_fire(0, 1);
    }
}

} // verus!
