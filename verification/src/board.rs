//! One player's board: the grid of cell states and the ships placed on it,
//! with placement and shot resolution.

use vstd::prelude::*;
use crate::grid::{
    in_grid, CellState, Coordinate, FireError, FireOutcome, Orientation, PlacementError,
    BOARD_HEIGHT, BOARD_WIDTH,
};
use crate::ship::{Ship, ShipView};

verus! {

/// The mathematical model of a board.
pub struct BoardView {
    /// The state of each cell of the grid, by (column, row).
    pub cells: Map<(int, int), CellState>,
    /// The ships in the order in which they were placed.
    pub ships: Seq<ShipView>,
}

impl BoardView {
    /// The board at the start of a game: every cell empty, no ship.
    pub open spec fn empty() -> BoardView {
        BoardView {
            cells: Map::new(|p: (int, int)| in_grid(p), |p: (int, int)| CellState::Empty),
            ships: Seq::empty(),
        }
    }

    /// Whether some ship of the board has `p` among its cells.
    pub open spec fn covered(self, p: (int, int)) -> bool {
        exists|i: int| 0 <= i < self.ships.len() && (#[trigger] self.ships[i].covers(p))
    }

    /// The invariant of a board: the ships lie inside the grid and apart from
    /// each other; a cell that a ship covers holds `Hit` where that ship
    /// records the hit and `Occupied` where it does not; a cell that no ship
    /// covers holds `Empty` or `Miss`.
    pub open spec fn wf(self) -> bool {
        &&& forall|p: (int, int)| self.cells.dom().contains(p) <==> in_grid(p)
        &&& forall|i: int|
            0 <= i < self.ships.len() ==> (#[trigger] self.ships[i]).wf() && self.ships[i].fits()
        &&& forall|i: int, j: int, p: (int, int)|
            0 <= i < self.ships.len() && 0 <= j < self.ships.len() && i != j
                && #[trigger] self.ships[i].covers(p) ==> !#[trigger] self.ships[j].covers(p)
        &&& forall|i: int, p: (int, int)|
            0 <= i < self.ships.len() && #[trigger] self.ships[i].covers(p)
                ==> self.cells[p] == self.ships[i].shown_at(p)
        &&& forall|p: (int, int)|
            in_grid(p) && !self.covered(p) ==> #[trigger] self.cells[p] == CellState::Empty
                || self.cells[p] == CellState::Miss
    }

    /// Whether a cell of `ship` is a cell of a ship of the board.
    pub open spec fn overlaps(self, ship: ShipView) -> bool {
        exists|k: int| 0 <= k < ship.length && #[trigger] self.covered(ship.cell(k))
    }

    /// What a request to place a fresh ship is answered with.
    pub open spec fn place_result(
        self,
        anchor: (int, int),
        length: int,
        orientation: Orientation,
    ) -> Result<(), PlacementError> {
        let ship = ShipView::fresh(anchor, length, orientation);
        if !ship.fits() {
            Err(PlacementError::OutOfBounds)
        } else if self.overlaps(ship) {
            Err(PlacementError::Overlap)
        } else {
            Ok(())
        }
    }

    /// The board after a request to place a fresh ship: with the ship added
    /// and its cells occupied where the request is accepted, unchanged where
    /// it is rejected.
    pub open spec fn after_place(
        self,
        anchor: (int, int),
        length: int,
        orientation: Orientation,
    ) -> BoardView {
        let ship = ShipView::fresh(anchor, length, orientation);
        if self.place_result(anchor, length, orientation) is Ok {
            BoardView {
                cells: Map::new(
                    |p: (int, int)| in_grid(p),
                    |p: (int, int)|
                        if ship.covers(p) {
                            CellState::Occupied
                        } else {
                            self.cells[p]
                        },
                ),
                ships: self.ships.push(ship),
            }
        } else {
            self
        }
    }

    /// Whether the shot at `p` would leave the ship that covers `p` sunk.
    pub open spec fn sinks(self, p: (int, int)) -> bool {
        exists|i: int|
            0 <= i < self.ships.len() && (#[trigger] self.ships[i].covers(p))
                && self.ships[i].with_hit(p).is_sunk()
    }

    /// What a shot at `p` is answered with.
    pub open spec fn fire_result(self, p: (int, int)) -> Result<FireOutcome, FireError> {
        match self.cells[p] {
            CellState::Hit | CellState::Miss => Err(FireError::AlreadyFired),
            CellState::Empty => Ok(FireOutcome::Miss),
            CellState::Occupied => Ok(FireOutcome::Hit { sunk: self.sinks(p) }),
        }
    }

    /// The board after a shot at `p`: unchanged where the shot is rejected.
    pub open spec fn after_fire(self, p: (int, int)) -> BoardView {
        match self.cells[p] {
            CellState::Hit | CellState::Miss => self,
            CellState::Empty => BoardView {
                cells: self.cells.insert(p, CellState::Miss),
                ships: self.ships,
            },
            CellState::Occupied => BoardView {
                cells: self.cells.insert(p, CellState::Hit),
                ships: Seq::new(self.ships.len(), |i: int| self.ships[i].with_hit(p)),
            },
        }
    }

    /// Whether every ship placed so far is sunk.
    pub open spec fn all_sunk(self) -> bool {
        forall|i: int| 0 <= i < self.ships.len() ==> (#[trigger] self.ships[i]).is_sunk()
    }

    /// Placement keeps the invariant, whether it is accepted or not.
    pub proof fn lemma_after_place_wf(
        self,
        anchor: (int, int),
        length: int,
        orientation: Orientation,
    )
        requires
            self.wf(),
        ensures
            self.after_place(anchor, length, orientation).wf(),
    {
        let ship = ShipView::fresh(anchor, length, orientation);
        let next = self.after_place(anchor, length, orientation);
        if self.place_result(anchor, length, orientation) is Ok {
            let n = self.ships.len() as int;
            assert forall|p: (int, int)| ship.covers(p) implies !self.covered(p) by {
                assert(!self.covered(ship.cell(ship.offset_of(p))));
            }
            assert forall|i: int, j: int, p: (int, int)|
                0 <= i < next.ships.len() && 0 <= j < next.ships.len() && i != j
                    && #[trigger] next.ships[i].covers(p)
                implies !#[trigger] next.ships[j].covers(p) by {
                if i < n && j < n {
                    assert(self.ships[i].covers(p));
                } else if i == n {
                    assert(next.ships[j] == self.ships[j]);
                } else {
                    assert(self.ships[i].covers(p));
                }
            }
            assert forall|i: int, p: (int, int)|
                0 <= i < next.ships.len() && #[trigger] next.ships[i].covers(p)
                implies next.cells[p] == next.ships[i].shown_at(p) by {
                if i < n {
                    assert(self.ships[i].covers(p));
                }
            }
            assert forall|p: (int, int)| in_grid(p) && !next.covered(p)
                implies #[trigger] next.cells[p] == CellState::Empty
                    || next.cells[p] == CellState::Miss by {
                assert(!next.ships[n].covers(p));
                if self.covered(p) {
                    let i = choose|i: int|
                        0 <= i < self.ships.len() && #[trigger] self.ships[i].covers(p);
                    assert(next.ships[i].covers(p));
                }
            }
        }
    }

    /// A shot keeps the invariant, whether it is accepted or not.
    pub proof fn lemma_after_fire_wf(self, p: (int, int))
        requires
            self.wf(),
            in_grid(p),
        ensures
            self.after_fire(p).wf(),
    {
        let next = self.after_fire(p);
        if self.cells[p] == CellState::Empty || self.cells[p] == CellState::Occupied {
            assert forall|i: int| 0 <= i < next.ships.len()
                implies (#[trigger] next.ships[i]).wf() && next.ships[i].fits() by {
                self.ships[i].lemma_with_hit_count(p);
            }
            assert forall|i: int, q: (int, int)| 0 <= i < next.ships.len()
                implies #[trigger] next.ships[i].covers(q) == self.ships[i].covers(q) by {}
            assert forall|i: int, q: (int, int)|
                0 <= i < next.ships.len() && #[trigger] next.ships[i].covers(q)
                implies next.cells[q] == next.ships[i].shown_at(q) by {
                assert(self.ships[i].covers(q));
            }
            assert forall|q: (int, int)| in_grid(q) && !next.covered(q)
                implies #[trigger] next.cells[q] == CellState::Empty
                    || next.cells[q] == CellState::Miss by {
                if self.covered(q) {
                    let i = choose|i: int|
                        0 <= i < self.ships.len() && #[trigger] self.ships[i].covers(q);
                    assert(next.ships[i].covers(q));
                }
            }
        }
    }
}

/// A player's board.
#[derive(Debug)]
pub struct Board {
    cells: Vec<CellState>,
    ships: Vec<Ship>,
}

/// Where the state of the cell `p` stands in the row-by-row store.
spec fn cell_index(p: (int, int)) -> int {
    p.1 * BOARD_WIDTH + p.0
}

/// The state that the row-by-row store `cells` holds for the cell `p`.
spec fn stored(cells: Seq<CellState>, p: (int, int)) -> CellState {
    cells[cell_index(p)]
}

/// The state of the cell `p` once the first `k` cells of `ship` are occupied
/// in the store `cells`.
spec fn occupied_upto(cells: Seq<CellState>, ship: ShipView, k: int, p: (int, int)) -> CellState {
    if ship.covers(p) && ship.offset_of(p) < k {
        CellState::Occupied
    } else {
        stored(cells, p)
    }
}

impl View for Board {
    type V = BoardView;

    closed spec fn view(&self) -> BoardView {
        BoardView {
            cells: Map::new(|p: (int, int)| in_grid(p), |p: (int, int)| stored(self.cells@, p)),
            ships: Seq::new(self.ships@.len(), |i: int| self.ships@[i]@),
        }
    }
}

impl Board {
    /// The representation is complete and its model satisfies the board's
    /// invariant.
    pub closed spec fn wf(&self) -> bool {
        &&& self.cells@.len() == BOARD_WIDTH * BOARD_HEIGHT
        &&& forall|i: int| 0 <= i < self.ships@.len() ==> (#[trigger] self.ships@[i]).wf()
        &&& self@.wf()
    }

    /// The model of a well-formed board satisfies the board's invariant.
    pub proof fn lemma_view_wf(&self)
        requires
            self.wf(),
        ensures
            self@.wf(),
    {
    }

    /// An empty board.
    pub fn new() -> (board: Board)
        ensures
            board.wf(),
            board@ == BoardView::empty(),
    {
        let mut cells: Vec<CellState> = Vec::new();
        let mut k: usize = 0;
        while k < BOARD_WIDTH * BOARD_HEIGHT
            invariant
                k <= BOARD_WIDTH * BOARD_HEIGHT,
                cells@.len() == k,
                forall|j: int| 0 <= j < k ==> cells@[j] == CellState::Empty,
            decreases BOARD_WIDTH * BOARD_HEIGHT - k,
        {
            cells.push(CellState::Empty);
            k += 1;
        }
        let board = Board { cells, ships: Vec::new() };
        assert(board@.cells =~= BoardView::empty().cells);
        assert(board@.ships =~= BoardView::empty().ships);
        board
    }

    /// The state of the cell at `coord`.
    pub fn cell_state(&self, coord: Coordinate) -> (state: CellState)
        requires
            self.wf(),
        ensures
            in_grid(coord@),
            state == self@.cells[coord@],
    {
        let c: usize = coord.column();
        let r: usize = coord.row();
        self.cells[r * BOARD_WIDTH + c]
    }

    /// The ships in the order in which they were placed.
    pub fn ships(&self) -> (list: &Vec<Ship>)
        requires
            self.wf(),
        ensures
            list@.len() == self@.ships.len(),
            forall|i: int|
                0 <= i < list@.len() ==> (#[trigger] list@[i]).wf() && list@[i]@ == self@.ships[i],
    {
        &self.ships
    }

    /// Whether every ship placed so far is sunk.
    pub fn all_sunk(&self) -> (b: bool)
        requires
            self.wf(),
        ensures
            b == self@.all_sunk(),
    {
        let mut i: usize = 0;
        while i < self.ships.len()
            invariant
                self.wf(),
                i <= self.ships@.len(),
                forall|j: int| 0 <= j < i ==> (#[trigger] self@.ships[j]).is_sunk(),
            decreases self.ships@.len() - i,
        {
            if !self.ships[i].is_sunk() {
                assert(!self@.ships[i as int].is_sunk());
                return false;
            }
            i += 1;
        }
        true
    }

    /// The index of the ship that covers `coord`.
    fn find_ship(&self, coord: Coordinate) -> (i: usize)
        requires
            self.wf(),
            self@.covered(coord@),
        ensures
            i < self.ships@.len(),
            self@.ships[i as int].covers(coord@),
    {
        let mut i: usize = 0;
        while i < self.ships.len()
            invariant
                self.wf(),
                i <= self.ships@.len(),
                forall|j: int| 0 <= j < i ==> !#[trigger] self@.ships[j].covers(coord@),
            decreases self.ships@.len() - i,
        {
            if self.ships[i].covers(coord) {
                return i;
            }
            i += 1;
        }
        0
    }

    /// Writes `state` into the store for the cell `coord`, and nothing else.
    fn mark(&mut self, coord: Coordinate, state: CellState)
        requires
            old(self).cells@.len() == BOARD_WIDTH * BOARD_HEIGHT,
        ensures
            final(self).ships == old(self).ships,
            final(self).cells@.len() == BOARD_WIDTH * BOARD_HEIGHT,
            forall|p: (int, int)|
                in_grid(p) ==> #[trigger] stored(final(self).cells@, p) == (if p == coord@ {
                    state
                } else {
                    stored(old(self).cells@, p)
                }),
    {
        let c: usize = coord.column();
        let r: usize = coord.row();
        self.cells.set(r * BOARD_WIDTH + c, state);
        assert forall|p: (int, int)| in_grid(p) && p != coord@ implies #[trigger] stored(
            self.cells@,
            p,
        ) == stored(old(self).cells@, p) by {
            assert(cell_index(p) != cell_index(coord@));
        }
    }

    /// Places a fresh ship of `length` cells at `anchor`. Rejected with
    /// `OutOfBounds` where a cell of the footprint lies outside the grid or
    /// the ship has no cell at all, with `Overlap` where a cell of the
    /// footprint is a cell of a ship already placed. A rejected request
    /// changes nothing; an accepted one occupies every cell of the footprint
    /// and appends the ship.
    pub fn place_ship(
        &mut self,
        anchor: Coordinate,
        length: usize,
        orientation: Orientation,
    ) -> (res: Result<(), PlacementError>)
        requires
            old(self).wf(),
        ensures
            final(self).wf(),
            res == old(self)@.place_result(anchor@, length as int, orientation),
            final(self)@ == old(self)@.after_place(anchor@, length as int, orientation),
    {
        let ghost model = ShipView::fresh(anchor@, length as int, orientation);
        let room: usize = match orientation {
            Orientation::Horizontal => BOARD_WIDTH - anchor.column(),
            Orientation::Vertical => BOARD_HEIGHT - anchor.row(),
        };
        if length == 0 || length > room {
            return Err(PlacementError::OutOfBounds);
        }
        let ship = Ship::new(anchor, length, orientation);
        let footprint: Vec<Coordinate> = match ship.occupied_cells() {
            Ok(cells) => cells,
            Err(e) => {
                return Err(e);
            },
        };
        let mut k: usize = 0;
        while k < footprint.len()
            invariant
                *self == *old(self),
                self.wf(),
                model == ShipView::fresh(anchor@, length as int, orientation),
                model.fits(),
                footprint@.len() == length,
                forall|j: int| 0 <= j < length ==> (#[trigger] footprint@[j])@ == model.cell(j),
                k <= length,
                forall|j: int| 0 <= j < k ==> !#[trigger] self@.covered(model.cell(j)),
            decreases length - k,
        {
            let state = self.cell_state(footprint[k]);
            if state == CellState::Occupied || state == CellState::Hit {
                assert(self@.covered(model.cell(k as int)));
                return Err(PlacementError::Overlap);
            }
            proof {
                if self@.covered(model.cell(k as int)) {
                    let w = choose|w: int|
                        0 <= w < self@.ships.len() && #[trigger] self@.ships[w].covers(
                            model.cell(k as int),
                        );
                    assert(self@.cells[model.cell(k as int)] == self@.ships[w].shown_at(
                        model.cell(k as int),
                    ));
                }
            }
            k += 1;
        }
        k = 0;
        while k < footprint.len()
            invariant
                self.ships == old(self).ships,
                self.cells@.len() == BOARD_WIDTH * BOARD_HEIGHT,
                model == ShipView::fresh(anchor@, length as int, orientation),
                footprint@.len() == length,
                forall|j: int| 0 <= j < length ==> (#[trigger] footprint@[j])@ == model.cell(j),
                k <= length,
                forall|p: (int, int)|
                    in_grid(p) ==> #[trigger] stored(self.cells@, p) == occupied_upto(
                        old(self).cells@,
                        model,
                        k as int,
                        p,
                    ),
            decreases length - k,
        {
            let ghost before = self.cells@;
            self.mark(footprint[k], CellState::Occupied);
            assert forall|p: (int, int)| in_grid(p) implies #[trigger] stored(self.cells@, p)
                == occupied_upto(old(self).cells@, model, k + 1, p) by {
                assert(stored(before, p) == occupied_upto(old(self).cells@, model, k as int, p));
            }
            k += 1;
        }
        self.ships.push(ship);
        proof {
            let next = old(self)@.after_place(anchor@, length as int, orientation);
            old(self)@.lemma_after_place_wf(anchor@, length as int, orientation);
            assert(self@.ships =~= next.ships);
            assert(self@.cells =~= next.cells);
        }
        Ok(())
    }

    /// Resolves a shot at `coord`. Rejected with `AlreadyFired`, and nothing
    /// changed, where the cell was already resolved as a hit or a miss. A shot
    /// at an empty cell turns it into a miss. A shot at an occupied cell turns
    /// it into a hit, records the hit on the ship that covers the cell, and
    /// reports whether that ship is now sunk.
    pub fn fire(&mut self, coord: Coordinate) -> (res: Result<FireOutcome, FireError>)
        requires
            old(self).wf(),
        ensures
            final(self).wf(),
            res == old(self)@.fire_result(coord@),
            final(self)@ == old(self)@.after_fire(coord@),
    {
        let ghost p = coord@;
        let ghost next = old(self)@.after_fire(p);
        let state = self.cell_state(coord);
        proof {
            old(self)@.lemma_after_fire_wf(p);
        }
        match state {
            CellState::Hit | CellState::Miss => Err(FireError::AlreadyFired),
            CellState::Empty => {
                self.mark(coord, CellState::Miss);
                assert(self@.cells =~= next.cells);
                assert(self@.ships =~= next.ships);
                Ok(FireOutcome::Miss)
            },
            CellState::Occupied => {
                let i: usize = self.find_ship(coord);
                self.mark(coord, CellState::Hit);
                self.ships[i].register_hit(coord);
                let sunk: bool = self.ships[i].is_sunk();
                proof {
                    assert(self@.cells =~= next.cells);
                    assert forall|j: int| 0 <= j < self@.ships.len() implies self@.ships[j]
                        == #[trigger] next.ships[j] by {
                        if j != i {
                            assert(!old(self)@.ships[j].covers(p));
                        }
                    }
                    assert(self@.ships =~= next.ships);
                    if old(self)@.sinks(p) {
                        let w = choose|w: int|
                            0 <= w < old(self)@.ships.len() && #[trigger] old(self)@.ships[w].covers(
                                p,
                            ) && old(self)@.ships[w].with_hit(p).is_sunk();
                        assert(w == i);
                    }
                }
                Ok(FireOutcome::Hit { sunk })
            },
        }
    }
}

} // verus!
