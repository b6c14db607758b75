//! What holds of placements, shots and the winner whatever the board: stated
//! over the models and proved from their definitions.

use vstd::prelude::*;
use crate::board::BoardView;
use crate::game::{opponent_of, GameView, Phase};
use crate::grid::{in_grid, CellState, FireError, FireOutcome, Orientation, PlacementError, Players};
use crate::ship::ShipView;

verus! {

/// On a board that satisfies its invariant, the cells that hold `Occupied` or
/// `Hit` are exactly the cells of its ships.
pub proof fn lemma_marked_cells_are_ship_cells(board: BoardView, p: (int, int))
    requires
        board.wf(),
        in_grid(p),
    ensures
        board.covered(p) <==> (board.cells[p] == CellState::Occupied || board.cells[p]
            == CellState::Hit),
{
    if board.covered(p) {
        let i = choose|i: int| 0 <= i < board.ships.len() && #[trigger] board.ships[i].covers(p);
        assert(board.cells[p] == board.ships[i].shown_at(p));
    }
}

/// A ship whose footprint lies inside the grid and meets no ship of the board
/// is accepted: every one of its cells is then occupied, and the ship is the
/// last of the board's ships.
pub proof fn lemma_valid_placement_accepted(
    board: BoardView,
    anchor: (int, int),
    length: int,
    orientation: Orientation,
)
    requires
        board.wf(),
        ShipView::fresh(anchor, length, orientation).fits(),
        !board.overlaps(ShipView::fresh(anchor, length, orientation)),
    ensures
        ({
            let ship = ShipView::fresh(anchor, length, orientation);
            let next = board.after_place(anchor, length, orientation);
            &&& board.place_result(anchor, length, orientation) == Ok::<(), PlacementError>(())
            &&& next.wf()
            &&& next.ships == board.ships.push(ship)
            &&& forall|k: int|
                0 <= k < length ==> next.cells[#[trigger] ship.cell(k)] == CellState::Occupied
            &&& forall|p: (int, int)|
                in_grid(p) && !ship.covers(p) ==> #[trigger] next.cells[p] == board.cells[p]
        }),
{
    let ship = ShipView::fresh(anchor, length, orientation);
    board.lemma_after_place_wf(anchor, length, orientation);
    assert forall|k: int| 0 <= k < length implies board.after_place(
        anchor,
        length,
        orientation,
    ).cells[#[trigger] ship.cell(k)] == CellState::Occupied by {
        assert(ship.covers(ship.cell(k)));
    }
}

/// A ship whose footprint leaves the grid is rejected with `OutOfBounds`, and
/// the board stays as it was.
pub proof fn lemma_out_of_bounds_rejected(
    board: BoardView,
    anchor: (int, int),
    length: int,
    orientation: Orientation,
)
    requires
        !ShipView::fresh(anchor, length, orientation).fits(),
    ensures
        board.place_result(anchor, length, orientation) == Err::<(), PlacementError>(
            PlacementError::OutOfBounds,
        ),
        board.after_place(anchor, length, orientation) == board,
{
}

/// A ship whose footprint lies inside the grid and shares the cell `p` with
/// the ship `i` of the board is rejected with `Overlap`, and the board stays
/// as it was.
pub proof fn lemma_overlap_rejected(
    board: BoardView,
    anchor: (int, int),
    length: int,
    orientation: Orientation,
    i: int,
    p: (int, int),
)
    requires
        ShipView::fresh(anchor, length, orientation).fits(),
        0 <= i < board.ships.len(),
        board.ships[i].covers(p),
        ShipView::fresh(anchor, length, orientation).covers(p),
    ensures
        board.place_result(anchor, length, orientation) == Err::<(), PlacementError>(
            PlacementError::Overlap,
        ),
        board.after_place(anchor, length, orientation) == board,
{
    let ship = ShipView::fresh(anchor, length, orientation);
    let k = ship.offset_of(p);
    assert(ship.cell(k) == p);
    assert(board.covered(ship.cell(k)));
}

/// A rejected placement and a rejected shot leave the board as it was.
pub proof fn lemma_rejection_changes_nothing(
    board: BoardView,
    anchor: (int, int),
    length: int,
    orientation: Orientation,
    p: (int, int),
)
    ensures
        board.place_result(anchor, length, orientation) is Err ==> board.after_place(
            anchor,
            length,
            orientation,
        ) == board,
        board.fire_result(p) is Err ==> board.after_fire(p) == board,
{
}

/// A second shot at a cell is rejected with `AlreadyFired` and leaves the
/// board as the first shot left it.
pub proof fn lemma_second_shot_rejected(board: BoardView, p: (int, int))
    requires
        board.wf(),
        in_grid(p),
    ensures
        board.after_fire(p).fire_result(p) == Err::<FireOutcome, FireError>(
            FireError::AlreadyFired,
        ),
        board.after_fire(p).after_fire(p) == board.after_fire(p),
{
}

/// A first shot at a cell that no ship covers is a miss: the cell then holds
/// `Miss`, and no other cell and no ship has changed.
pub proof fn lemma_shot_at_open_water(board: BoardView, p: (int, int))
    requires
        board.wf(),
        in_grid(p),
        !board.covered(p),
        board.cells[p] != CellState::Miss,
    ensures
        board.fire_result(p) == Ok::<FireOutcome, FireError>(FireOutcome::Miss),
        board.after_fire(p).cells == board.cells.insert(p, CellState::Miss),
        board.after_fire(p).cells[p] == CellState::Miss,
        board.after_fire(p).ships == board.ships,
{
}

/// A first shot at a cell of the ship `i` is a hit: the cell then holds
/// `Hit`, that ship counts exactly one hit more, and no other cell and no
/// other ship has changed.
pub proof fn lemma_shot_at_ship(board: BoardView, p: (int, int), i: int)
    requires
        board.wf(),
        in_grid(p),
        0 <= i < board.ships.len(),
        board.ships[i].covers(p),
        board.cells[p] != CellState::Hit,
    ensures
        board.fire_result(p) == Ok::<FireOutcome, FireError>(
            FireOutcome::Hit { sunk: board.ships[i].with_hit(p).is_sunk() },
        ),
        board.after_fire(p).cells == board.cells.insert(p, CellState::Hit),
        board.after_fire(p).cells[p] == CellState::Hit,
        board.after_fire(p).ships.len() == board.ships.len(),
        board.after_fire(p).ships[i].hit_count() == board.ships[i].hit_count() + 1,
        forall|j: int|
            0 <= j < board.ships.len() && j != i ==> #[trigger] board.after_fire(p).ships[j]
                == board.ships[j],
{
    assert(board.cells[p] == CellState::Occupied);
    assert(!board.ships[i].is_hit_at(p));
    board.ships[i].lemma_with_hit_count(p);
    if board.sinks(p) {
        let w = choose|w: int|
            0 <= w < board.ships.len() && #[trigger] board.ships[w].covers(p)
                && board.ships[w].with_hit(p).is_sunk();
        assert(w == i);
    }
    assert forall|j: int| 0 <= j < board.ships.len() && j != i implies #[trigger] board.after_fire(
        p,
    ).ships[j] == board.ships[j] by {
        assert(!board.ships[j].covers(p));
    }
}

/// The shot that strikes the last cell afloat of the last ship afloat is a
/// hit that sinks, and every ship of the board is sunk after it.
pub proof fn lemma_sinking_last_ship(board: BoardView, p: (int, int), i: int)
    requires
        board.wf(),
        in_grid(p),
        0 <= i < board.ships.len(),
        board.ships[i].covers(p),
        board.cells[p] != CellState::Hit,
        board.ships[i].with_hit(p).is_sunk(),
        forall|j: int| 0 <= j < board.ships.len() && j != i ==> (#[trigger] board.ships[j]).is_sunk(),
    ensures
        board.fire_result(p) == Ok::<FireOutcome, FireError>(FireOutcome::Hit { sunk: true }),
        board.after_fire(p).all_sunk(),
{
    assert(board.cells[p] == CellState::Occupied);
    assert(board.sinks(p));
    let next = board.after_fire(p);
    assert forall|j: int| 0 <= j < next.ships.len() implies (#[trigger] next.ships[j]).is_sunk() by {
        if j != i {
            assert(!board.ships[j].covers(p));
            assert(board.ships[j].is_sunk());
        }
    }
}

/// Where the attacker still has a ship afloat, the shot that sinks the last
/// ship afloat of the opponent makes the attacker the winner.
pub proof fn lemma_last_ship_decides(game: GameView, attacker: Players, p: (int, int), i: int)
    requires
        game.wf(),
        in_grid(p),
        !game.player(attacker).board.all_sunk(),
        0 <= i < game.player(opponent_of(attacker)).board.ships.len(),
        game.player(opponent_of(attacker)).board.ships[i].covers(p),
        game.player(opponent_of(attacker)).board.cells[p] != CellState::Hit,
        game.player(opponent_of(attacker)).board.ships[i].with_hit(p).is_sunk(),
        forall|j: int|
            0 <= j < game.player(opponent_of(attacker)).board.ships.len() && j != i ==> (
            #[trigger] game.player(opponent_of(attacker)).board.ships[j]).is_sunk(),
    ensures
        game.after_fire(opponent_of(attacker), p).winner() == Some(attacker),
{
    lemma_sinking_last_ship(game.player(opponent_of(attacker)).board, p, i);
}

/// A shot never changes the state of a cell other than its target, and the
/// target never returns to `Empty` or `Occupied`.
pub proof fn lemma_shot_is_local(board: BoardView, p: (int, int), q: (int, int))
    requires
        board.wf(),
        in_grid(p),
        in_grid(q),
    ensures
        q != p ==> board.after_fire(p).cells[q] == board.cells[q],
        board.after_fire(p).cells[p] == CellState::Hit || board.after_fire(p).cells[p]
            == CellState::Miss,
{
}

/// How far a phase lies from the start of a game.
pub open spec fn phase_rank(phase: Phase) -> int {
    match phase {
        Phase::Setup => 0,
        Phase::InPlay => 1,
        Phase::Finished => 2,
    }
}

/// A sunk ship stays sunk whatever cell is struck next.
pub proof fn lemma_sunk_stays_sunk(ship: ShipView, p: (int, int))
    requires
        ship.is_sunk(),
    ensures
        ship.with_hit(p).is_sunk(),
{
}

/// A request to place a ship never takes a game back to an earlier phase.
pub proof fn lemma_placement_keeps_phase_order(
    game: GameView,
    who: Players,
    anchor: (int, int),
    orientation: Orientation,
)
    requires
        game.wf(),
    ensures
        phase_rank(game.phase()) <= phase_rank(game.after_place(who, anchor, orientation).phase()),
{
    let next = game.after_place(who, anchor, orientation);
    game.player(who).lemma_place_consumes_quota(anchor, orientation);
    if game.phase() != Phase::Setup {
        assert(game.player(who).remaining() <= 0);
        assert(next == game);
    }
}

/// A shot never takes a game back to an earlier phase.
pub proof fn lemma_shot_keeps_phase_order(game: GameView, defender: Players, p: (int, int))
    requires
        game.wf(),
        in_grid(p),
    ensures
        phase_rank(game.phase()) <= phase_rank(game.after_fire(defender, p).phase()),
{
    let next = game.after_fire(defender, p);
    let before = game.player(defender).board;
    let after = next.player(defender).board;
    assert(after == before.after_fire(p));
    assert(after.ships.len() == before.ships.len());
    if before.all_sunk() {
        assert forall|i: int| 0 <= i < after.ships.len() implies (#[trigger] after.ships[i]).is_sunk() by {
            assert(before.ships[i].is_sunk());
            lemma_sunk_stays_sunk(before.ships[i], p);
        }
    }
}

} // verus!
