//! A two-player naval-combat engine on a fixed ten-by-nine grid: coordinates,
//! ships, boards, players and the game that owns both players.
//!
//! Every operation is a complete state transition. Its contract is stated over
//! the mathematical view of the value it works on, and a rejected request
//! leaves that view as it was.

pub mod board;
pub mod game;
pub mod grid;
pub mod laws;
pub mod layout;
pub mod player;
pub mod report;
pub mod ship;

pub use grid::{
    CellState, Coordinate, FireError, FireOutcome, Orientation, PlacementError, Players,
    BOARD_HEIGHT, BOARD_WIDTH,
};
pub use ship::{Ship, ShipView};
pub use board::{Board, BoardView};
pub use player::{Player, PlayerView};
pub use report::ShipReport;
pub use game::{BattleShipGame, GameView, Phase};
