use battleship::game::opponent;
use battleship::layout::{
    board_rect, column_label_rect, column_letter, fits_screen, row_label_rect, row_number,
    ship_marker_rect, square_rect, Rect,
};
use battleship::player::next_fleet_length;
use battleship::report::cell_symbol;
use battleship::{
    BattleShipGame, Board, CellState, Coordinate, FireError, FireOutcome, Orientation, Phase,
    PlacementError, Player, Players, Ship, ShipReport, BOARD_HEIGHT, BOARD_WIDTH,
};

fn at(column: usize, row: usize) -> Coordinate {
    Coordinate::make(column, row).unwrap()
}

#[test]
fn grid_is_ten_by_nine() {
    assert_eq!(BOARD_WIDTH, 10);
    assert_eq!(BOARD_HEIGHT, 9);
}

#[test]
fn make_accepts_every_cell_of_the_grid() {
    for column in 0..10 {
        for row in 0..9 {
            let c = Coordinate::make(column, row).unwrap();
            assert_eq!(c.column(), column);
            assert_eq!(c.row(), row);
        }
    }
}

#[test]
fn make_rejects_what_lies_outside() {
    assert_eq!(Coordinate::make(10, 0), Err(PlacementError::OutOfBounds));
    assert_eq!(Coordinate::make(0, 9), Err(PlacementError::OutOfBounds));
    assert_eq!(Coordinate::make(10, 9), Err(PlacementError::OutOfBounds));
    assert_eq!(Coordinate::make(usize::MAX, usize::MAX), Err(PlacementError::OutOfBounds));
    assert!(Coordinate::make(9, 8).is_ok());
}

#[test]
fn coordinates_compare_by_column_and_row() {
    assert_eq!(at(3, 4), at(3, 4));
    assert_ne!(at(3, 4), at(4, 3));
    assert!(at(1, 8) < at(2, 0));
    assert!(at(2, 0) < at(2, 1));
}

#[test]
fn new_ship_has_no_hits() {
    let ship = Ship::new(at(1, 2), 3, Orientation::Horizontal);
    assert_eq!(ship.anchor(), at(1, 2));
    assert_eq!(ship.length(), 3);
    assert_eq!(ship.orientation(), Orientation::Horizontal);
    assert_eq!(ship.hit_count(), 0);
    assert!(!ship.is_sunk());
}

#[test]
fn occupied_cells_follow_the_axis() {
    let h = Ship::new(at(1, 2), 3, Orientation::Horizontal);
    assert_eq!(h.occupied_cells(), Ok(vec![at(1, 2), at(2, 2), at(3, 2)]));
    let v = Ship::new(at(1, 2), 3, Orientation::Vertical);
    assert_eq!(v.occupied_cells(), Ok(vec![at(1, 2), at(1, 3), at(1, 4)]));
}

#[test]
fn occupied_cells_fail_outside_the_grid() {
    let h = Ship::new(at(8, 0), 3, Orientation::Horizontal);
    assert_eq!(h.occupied_cells(), Err(PlacementError::OutOfBounds));
    assert!(!h.fits());
    let v = Ship::new(at(0, 7), 3, Orientation::Vertical);
    assert_eq!(v.occupied_cells(), Err(PlacementError::OutOfBounds));
    let edge = Ship::new(at(8, 7), 2, Orientation::Vertical);
    assert_eq!(edge.occupied_cells(), Ok(vec![at(8, 7), at(8, 8)]));
    assert!(edge.fits());
}

#[test]
fn ship_covers_its_cells_only() {
    let ship = Ship::new(at(4, 4), 2, Orientation::Vertical);
    assert!(ship.covers(at(4, 4)));
    assert!(ship.covers(at(4, 5)));
    assert!(!ship.covers(at(4, 6)));
    assert!(!ship.covers(at(4, 3)));
    assert!(!ship.covers(at(5, 4)));
}

#[test]
fn register_hit_ignores_foreign_cells() {
    let mut ship = Ship::new(at(4, 4), 2, Orientation::Vertical);
    ship.register_hit(at(0, 0));
    ship.register_hit(at(5, 4));
    assert_eq!(ship.hit_count(), 0);
    assert!(!ship.is_hit_at(at(0, 0)));
}

#[test]
fn register_hit_is_idempotent() {
    let mut ship = Ship::new(at(4, 4), 2, Orientation::Vertical);
    ship.register_hit(at(4, 5));
    assert_eq!(ship.hit_count(), 1);
    assert!(ship.is_hit_at(at(4, 5)));
    assert!(!ship.is_hit_at(at(4, 4)));
    ship.register_hit(at(4, 5));
    assert_eq!(ship.hit_count(), 1);
    assert!(!ship.is_sunk());
}

#[test]
fn ship_is_sunk_when_hits_equal_length() {
    let mut ship = Ship::new(at(2, 1), 3, Orientation::Horizontal);
    for (n, column) in [3usize, 2, 4].iter().enumerate() {
        assert_eq!(ship.is_sunk(), ship.hit_count() == ship.length());
        ship.register_hit(at(*column, 1));
        assert_eq!(ship.hit_count(), n + 1);
    }
    assert!(ship.is_sunk());
    assert_eq!(ship.hit_count(), ship.length());
}

#[test]
fn new_board_is_empty() {
    let board = Board::new();
    for column in 0..10 {
        for row in 0..9 {
            assert_eq!(board.cell_state(at(column, row)), CellState::Empty);
        }
    }
    assert!(board.ships().is_empty());
    assert!(board.all_sunk());
}

#[test]
fn valid_placement_occupies_every_cell() {
    let mut board = Board::new();
    assert_eq!(board.place_ship(at(6, 3), 4, Orientation::Horizontal), Ok(()));
    assert_eq!(board.place_ship(at(0, 0), 9, Orientation::Vertical), Ok(()));
    for column in 0..10 {
        for row in 0..9 {
            let on_first = row == 3 && column >= 6;
            let on_second = column == 0;
            let expected = if on_first || on_second {
                CellState::Occupied
            } else {
                CellState::Empty
            };
            assert_eq!(board.cell_state(at(column, row)), expected);
        }
    }
    assert_eq!(board.ships().len(), 2);
    assert_eq!(board.ships()[0].anchor(), at(6, 3));
    assert_eq!(board.ships()[1].length(), 9);
}

#[test]
fn placement_outside_the_grid_is_rejected() {
    let mut board = Board::new();
    board.place_ship(at(0, 0), 2, Orientation::Horizontal).unwrap();
    let before = board.render();
    assert_eq!(
        board.place_ship(at(8, 5), 3, Orientation::Horizontal),
        Err(PlacementError::OutOfBounds)
    );
    assert_eq!(
        board.place_ship(at(8, 5), 3, Orientation::Horizontal),
        Err(PlacementError::OutOfBounds)
    );
    assert_eq!(
        board.place_ship(at(3, 8), 2, Orientation::Vertical),
        Err(PlacementError::OutOfBounds)
    );
    assert_eq!(
        board.place_ship(at(0, 0), usize::MAX, Orientation::Vertical),
        Err(PlacementError::OutOfBounds)
    );
    assert_eq!(board.render(), before);
    assert_eq!(board.ships().len(), 1);
}

#[test]
fn out_of_bounds_comes_before_overlap() {
    let mut board = Board::new();
    board.place_ship(at(9, 0), 1, Orientation::Vertical).unwrap();
    assert_eq!(
        board.place_ship(at(8, 0), 3, Orientation::Horizontal),
        Err(PlacementError::OutOfBounds)
    );
}

#[test]
fn overlapping_placement_is_rejected() {
    let mut board = Board::new();
    board.place_ship(at(2, 2), 4, Orientation::Horizontal).unwrap();
    let before = board.render();
    assert_eq!(board.place_ship(at(4, 0), 3, Orientation::Vertical), Err(PlacementError::Overlap));
    assert_eq!(board.place_ship(at(5, 2), 2, Orientation::Horizontal), Err(PlacementError::Overlap));
    assert_eq!(board.render(), before);
    assert_eq!(board.ships().len(), 1);
    assert_eq!(board.cell_state(at(4, 0)), CellState::Empty);
    assert_eq!(board.cell_state(at(4, 1)), CellState::Empty);
}

#[test]
fn placement_over_a_struck_cell_of_a_ship_is_rejected() {
    let mut board = Board::new();
    board.place_ship(at(2, 2), 2, Orientation::Horizontal).unwrap();
    assert_eq!(board.fire(at(2, 2)), Ok(FireOutcome::Hit { sunk: false }));
    assert_eq!(board.place_ship(at(2, 1), 2, Orientation::Vertical), Err(PlacementError::Overlap));
    assert_eq!(board.cell_state(at(2, 2)), CellState::Hit);
    assert_eq!(board.cell_state(at(2, 1)), CellState::Empty);
}

#[test]
fn second_shot_at_a_cell_is_rejected() {
    let mut board = Board::new();
    board.place_ship(at(5, 5), 2, Orientation::Vertical).unwrap();
    assert_eq!(board.fire(at(5, 5)), Ok(FireOutcome::Hit { sunk: false }));
    let after_first = board.render();
    assert_eq!(board.fire(at(5, 5)), Err(FireError::AlreadyFired));
    assert_eq!(board.render(), after_first);
    assert_eq!(board.ships()[0].hit_count(), 1);
    assert_eq!(board.fire(at(1, 1)), Ok(FireOutcome::Miss));
    let after_miss = board.render();
    assert_eq!(board.fire(at(1, 1)), Err(FireError::AlreadyFired));
    assert_eq!(board.render(), after_miss);
    assert_eq!(board.cell_state(at(1, 1)), CellState::Miss);
}

#[test]
fn miss_marks_the_cell_and_hit_counts_once() {
    let mut board = Board::new();
    board.place_ship(at(1, 1), 3, Orientation::Horizontal).unwrap();
    board.place_ship(at(1, 3), 2, Orientation::Horizontal).unwrap();
    assert_eq!(board.fire(at(0, 0)), Ok(FireOutcome::Miss));
    assert_eq!(board.cell_state(at(0, 0)), CellState::Miss);
    assert_eq!(board.ships()[0].hit_count(), 0);
    assert_eq!(board.ships()[1].hit_count(), 0);
    assert_eq!(board.fire(at(2, 1)), Ok(FireOutcome::Hit { sunk: false }));
    assert_eq!(board.cell_state(at(2, 1)), CellState::Hit);
    assert_eq!(board.cell_state(at(1, 1)), CellState::Occupied);
    assert_eq!(board.ships()[0].hit_count(), 1);
    assert_eq!(board.ships()[1].hit_count(), 0);
    assert!(board.ships()[0].is_hit_at(at(2, 1)));
}

#[test]
fn sinking_the_last_ship_sinks_the_fleet() {
    let mut board = Board::new();
    board.place_ship(at(0, 0), 1, Orientation::Horizontal).unwrap();
    board.place_ship(at(3, 3), 2, Orientation::Vertical).unwrap();
    assert!(!board.all_sunk());
    assert_eq!(board.fire(at(0, 0)), Ok(FireOutcome::Hit { sunk: true }));
    assert!(!board.all_sunk());
    assert_eq!(board.fire(at(3, 4)), Ok(FireOutcome::Hit { sunk: false }));
    assert!(!board.all_sunk());
    assert_eq!(board.fire(at(3, 3)), Ok(FireOutcome::Hit { sunk: true }));
    assert!(board.all_sunk());
    assert!(board.ships()[0].is_sunk());
    assert!(board.ships()[1].is_sunk());
}

#[test]
fn scenario_two_cell_ship() {
    let mut board = Board::new();
    assert_eq!(board.place_ship(at(0, 0), 2, Orientation::Horizontal), Ok(()));
    assert_eq!(board.cell_state(at(0, 0)), CellState::Occupied);
    assert_eq!(board.cell_state(at(1, 0)), CellState::Occupied);
    assert_eq!(board.cell_state(at(2, 0)), CellState::Empty);
    assert_eq!(board.cell_state(at(0, 1)), CellState::Empty);
    assert_eq!(board.fire(at(0, 0)), Ok(FireOutcome::Hit { sunk: false }));
    assert!(!board.ships()[0].is_sunk());
    assert!(!board.all_sunk());
    assert_eq!(board.fire(at(1, 0)), Ok(FireOutcome::Hit { sunk: true }));
    assert!(board.ships()[0].is_sunk());
    assert!(board.all_sunk());
    assert_eq!(board.fire(at(0, 1)), Ok(FireOutcome::Miss));
    assert_eq!(board.cell_state(at(0, 1)), CellState::Miss);
    assert_eq!(board.fire(at(0, 0)), Err(FireError::AlreadyFired));
    assert_eq!(board.cell_state(at(0, 0)), CellState::Hit);
}

#[test]
fn fleet_follows_the_classic_sizes() {
    let lengths: Vec<usize> = (0..7).map(next_fleet_length).collect();
    assert_eq!(lengths, vec![5, 4, 3, 3, 2, 5, 4]);
}

#[test]
fn player_places_by_quota() {
    let mut player = Player::new_player(2, Players::PlayerTwo);
    assert_eq!(player.identity(), Players::PlayerTwo);
    assert_eq!(player.ships_remaining(), 2);
    assert_eq!(player.remaining_quota(), vec![5, 4]);
    assert_eq!(player.place_ship(at(0, 0), Orientation::Horizontal), Ok(()));
    assert_eq!(player.remaining_quota(), vec![4]);
    assert_eq!(player.ships_remaining(), 1);
    assert_eq!(player.place_ship(at(6, 0), Orientation::Horizontal), Ok(()));
    assert_eq!(player.ships_remaining(), 0);
    assert_eq!(player.ship_list()[0].length(), 5);
    assert_eq!(player.ship_list()[1].length(), 4);
    assert_eq!(
        player.place_ship(at(0, 5), Orientation::Horizontal),
        Err(PlacementError::QuotaExhausted)
    );
    assert_eq!(player.ship_list().len(), 2);
    assert_eq!(player.remaining_quota(), Vec::<usize>::new());
    assert_eq!(player.cell_state(at(0, 5)), CellState::Empty);
}

#[test]
fn rejected_placement_keeps_the_quota() {
    let mut player = Player::new_player(3, Players::PlayerOne);
    assert_eq!(
        player.place_ship(at(6, 0), Orientation::Horizontal),
        Err(PlacementError::OutOfBounds)
    );
    assert_eq!(player.ships_remaining(), 3);
    assert_eq!(player.place_ship(at(5, 0), Orientation::Horizontal), Ok(()));
    assert_eq!(player.place_ship(at(7, 0), Orientation::Vertical), Err(PlacementError::Overlap));
    assert_eq!(player.ships_remaining(), 2);
    assert_eq!(player.place_ship(at(7, 1), Orientation::Vertical), Ok(()));
    assert_eq!(player.ship_list()[1].length(), 4);
}

#[test]
fn player_without_quota_places_nothing() {
    let mut player = Player::new_player(0, Players::PlayerOne);
    assert_eq!(
        player.place_ship(at(0, 0), Orientation::Horizontal),
        Err(PlacementError::QuotaExhausted)
    );
    assert!(player.all_sunk());
}

#[test]
fn player_receives_fire_on_own_board() {
    let mut player = Player::new_player(1, Players::PlayerOne);
    player.place_ship(at(0, 0), Orientation::Vertical).unwrap();
    assert_eq!(player.fire(at(0, 4)), Ok(FireOutcome::Hit { sunk: false }));
    assert_eq!(player.fire(at(1, 4)), Ok(FireOutcome::Miss));
    assert_eq!(player.fire(at(0, 4)), Err(FireError::AlreadyFired));
    assert_eq!(player.board().cell_state(at(0, 4)), CellState::Hit);
    assert!(!player.all_sunk());
}

#[test]
fn opponent_is_the_other_player() {
    assert_eq!(opponent(Players::PlayerOne), Players::PlayerTwo);
    assert_eq!(opponent(Players::PlayerTwo), Players::PlayerOne);
}

#[test]
fn shots_land_on_the_opponents_board() {
    let mut game = BattleShipGame::init_game(1);
    game.place_ship(Players::PlayerOne, at(0, 0), Orientation::Horizontal).unwrap();
    game.place_ship(Players::PlayerTwo, at(0, 1), Orientation::Horizontal).unwrap();
    assert_eq!(
        game.submit_shot(Players::PlayerOne, at(0, 1)),
        Ok(FireOutcome::Hit { sunk: false })
    );
    assert_eq!(game.cell_state(Players::PlayerTwo, at(0, 1)), CellState::Hit);
    assert_eq!(game.cell_state(Players::PlayerOne, at(0, 1)), CellState::Empty);
    assert_eq!(game.submit_shot(Players::PlayerTwo, at(0, 1)), Ok(FireOutcome::Miss));
    assert_eq!(game.cell_state(Players::PlayerOne, at(0, 1)), CellState::Miss);
    assert_eq!(game.fire(Players::PlayerOne, at(0, 0)), Ok(FireOutcome::Hit { sunk: false }));
    assert_eq!(game.cell_state(Players::PlayerOne, at(0, 0)), CellState::Hit);
    assert_eq!(game.ship_list(Players::PlayerOne)[0].hit_count(), 1);
    assert_eq!(game.ship_list(Players::PlayerTwo)[0].hit_count(), 1);
}

#[test]
fn winner_is_who_sinks_the_other_fleet() {
    let mut game = BattleShipGame::init_game(1);
    assert_eq!(game.phase(), Phase::Setup);
    game.place_ship(Players::PlayerOne, at(0, 0), Orientation::Horizontal).unwrap();
    game.place_ship(Players::PlayerTwo, at(0, 0), Orientation::Vertical).unwrap();
    assert_eq!(game.phase(), Phase::InPlay);
    assert_eq!(game.winner(), None);
    for row in 0..4 {
        assert_eq!(
            game.submit_shot(Players::PlayerOne, at(0, row)),
            Ok(FireOutcome::Hit { sunk: false })
        );
        assert_eq!(game.winner(), None);
    }
    assert_eq!(
        game.submit_shot(Players::PlayerOne, at(0, 4)),
        Ok(FireOutcome::Hit { sunk: true })
    );
    assert_eq!(game.winner(), Some(Players::PlayerOne));
    assert_eq!(game.phase(), Phase::Finished);
}

#[test]
fn second_player_can_win() {
    let mut game = BattleShipGame::init_game(1);
    game.place_ship(Players::PlayerOne, at(0, 0), Orientation::Horizontal).unwrap();
    game.place_ship(Players::PlayerTwo, at(0, 0), Orientation::Vertical).unwrap();
    for column in 0..5 {
        game.submit_shot(Players::PlayerTwo, at(column, 0)).unwrap();
    }
    assert_eq!(game.winner(), Some(Players::PlayerTwo));
}

#[test]
fn both_fleets_sunk_is_nobodys_win() {
    let game = BattleShipGame::init_game(0);
    assert_eq!(game.winner(), None);
    assert_eq!(game.phase(), Phase::Finished);
    let mut game = BattleShipGame::init_game(1);
    game.place_ship(Players::PlayerOne, at(0, 0), Orientation::Horizontal).unwrap();
    game.place_ship(Players::PlayerTwo, at(0, 0), Orientation::Horizontal).unwrap();
    for column in 0..5 {
        game.submit_shot(Players::PlayerOne, at(column, 0)).unwrap();
        game.submit_shot(Players::PlayerTwo, at(column, 0)).unwrap();
    }
    assert_eq!(game.winner(), None);
}

#[test]
fn trial_run_leaves_the_expected_board() {
    let mut game = BattleShipGame::init_game(2);
    game.test();
    let rows: Vec<String> = game.print_p1_board().iter().map(|r| r.iter().collect()).collect();
    assert_eq!(
        rows,
        vec![
            "X~~~~~~~~~",
            "X~~~~~~~~~",
            "S~SSSSS~~~",
            "X~o~~~~~~~",
            "~~~~~~~~~~",
            "~~~~~~~~~~",
            "~~~~~~~~~~",
            "~~~~~~~~~~",
            "~~~~~~~~~~",
        ]
    );
    assert_eq!(
        game.print_p1_ships(),
        vec![
            ShipReport {
                column: 2,
                row: 2,
                length: 5,
                orientation: Orientation::Horizontal,
                hits: 0,
                sunk: false,
            },
            ShipReport {
                column: 0,
                row: 0,
                length: 4,
                orientation: Orientation::Vertical,
                hits: 3,
                sunk: false,
            },
        ]
    );
    assert_eq!(game.player(Players::PlayerTwo).ship_list().len(), 0);
}

#[test]
fn trial_run_without_quota_only_fires() {
    let mut game = BattleShipGame::init_game(0);
    game.test();
    assert_eq!(game.ship_list(Players::PlayerOne).len(), 0);
    assert_eq!(game.cell_state(Players::PlayerOne, at(0, 3)), CellState::Miss);
    assert_eq!(game.cell_state(Players::PlayerOne, at(2, 3)), CellState::Miss);
    assert_eq!(game.cell_state(Players::PlayerOne, at(0, 0)), CellState::Miss);
    assert_eq!(game.cell_state(Players::PlayerOne, at(0, 1)), CellState::Miss);
    assert_eq!(game.cell_state(Players::PlayerOne, at(2, 2)), CellState::Empty);
}

#[test]
fn symbols_tell_the_states_apart() {
    assert_eq!(cell_symbol(CellState::Empty), '~');
    assert_eq!(cell_symbol(CellState::Occupied), 'S');
    assert_eq!(cell_symbol(CellState::Hit), 'X');
    assert_eq!(cell_symbol(CellState::Miss), 'o');
}

#[test]
fn placement_over_a_miss_occupies_the_cell() {
    let mut board = Board::new();
    assert_eq!(board.fire(at(3, 3)), Ok(FireOutcome::Miss));
    assert_eq!(board.place_ship(at(3, 3), 2, Orientation::Horizontal), Ok(()));
    assert_eq!(board.cell_state(at(3, 3)), CellState::Occupied);
    assert_eq!(board.cell_state(at(4, 3)), CellState::Occupied);
}

#[test]
fn layout_places_squares_beside_the_labels() {
    assert!(fits_screen(850, 50));
    assert!(!fits_screen(i32::MAX - 549, 0));
    assert!(fits_screen(i32::MAX - 550, i32::MAX - 500));
    assert_eq!(board_rect(850, 50), Rect { x: 850, y: 50, w: 550, h: 500 });
    assert_eq!(square_rect(0, 50, at(0, 0)), Rect { x: 50, y: 100, w: 50, h: 50 });
    assert_eq!(square_rect(850, 50, at(9, 8)), Rect { x: 1350, y: 500, w: 50, h: 50 });
    assert_eq!(column_label_rect(850, 50, 3), Rect { x: 1050, y: 50, w: 50, h: 50 });
    assert_eq!(row_label_rect(850, 50, 3), Rect { x: 850, y: 250, w: 50, h: 50 });
    let letters: String = (0..10).map(column_letter).collect();
    assert_eq!(letters, "ABCDEFGHIJ");
    assert_eq!(row_number(0), 1);
    assert_eq!(row_number(8), 9);
    assert_eq!(ship_marker_rect(0), Rect { x: 550, y: 105, w: 50, h: 40 });
    assert_eq!(ship_marker_rect(5), Rect { x: 550, y: 355, w: 300, h: 40 });
}

#[test]
fn ship_without_cells_has_no_place() {
    let ship = Ship::new(at(0, 0), 0, Orientation::Horizontal);
    assert_eq!(ship.length(), 0);
    assert_eq!(ship.hit_count(), 0);
    assert!(ship.is_sunk());
    assert!(!ship.covers(at(0, 0)));
    assert_eq!(ship.occupied_cells(), Err(PlacementError::OutOfBounds));
    let mut board = Board::new();
    assert_eq!(
        board.place_ship(at(0, 0), 0, Orientation::Horizontal),
        Err(PlacementError::OutOfBounds)
    );
    assert!(board.ships().is_empty());
    assert_eq!(board.cell_state(at(0, 0)), CellState::Empty);
}

#[test]
fn ships_may_touch_the_edges() {
    let mut board = Board::new();
    assert_eq!(board.place_ship(at(0, 8), 10, Orientation::Horizontal), Ok(()));
    assert_eq!(board.place_ship(at(9, 0), 8, Orientation::Vertical), Ok(()));
    assert_eq!(board.place_ship(at(0, 0), 11, Orientation::Horizontal), Err(PlacementError::OutOfBounds));
    assert_eq!(board.place_ship(at(0, 0), 10, Orientation::Horizontal), Err(PlacementError::Overlap));
    assert_eq!(board.place_ship(at(0, 0), 9, Orientation::Horizontal), Ok(()));
    assert_eq!(board.ships().len(), 3);
}
