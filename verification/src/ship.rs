//! Ships: a straight run of cells from an anchor, with a record of which of
//! its cells have been struck.

use vstd::prelude::*;
use vstd::set_lib::*;
use crate::grid::{in_grid, CellState, Coordinate, Orientation, PlacementError, BOARD_HEIGHT, BOARD_WIDTH};

verus! {

/// The mathematical model of a ship.
pub struct ShipView {
    /// Column of the anchor cell.
    pub column: int,
    /// Row of the anchor cell.
    pub row: int,
    /// Number of cells.
    pub length: int,
    /// Axis along which the cells follow the anchor.
    pub orientation: Orientation,
    /// Offsets, counted from the anchor, of the cells that were struck.
    pub hits: Set<int>,
}

impl ShipView {
    /// A ship without hits.
    pub open spec fn fresh(anchor: (int, int), length: int, orientation: Orientation) -> ShipView {
        ShipView { column: anchor.0, row: anchor.1, length, orientation, hits: Set::empty() }
    }

    /// The cell at offset `k` from the anchor.
    pub open spec fn cell(self, k: int) -> (int, int) {
        match self.orientation {
            Orientation::Horizontal => (self.column + k, self.row),
            Orientation::Vertical => (self.column, self.row + k),
        }
    }

    /// The cells of the ship, anchor first.
    pub open spec fn cells(self) -> Seq<(int, int)> {
        Seq::new(self.length as nat, |k: int| self.cell(k))
    }

    /// The offset at which `p` would lie on the ship's axis.
    pub open spec fn offset_of(self, p: (int, int)) -> int {
        match self.orientation {
            Orientation::Horizontal => p.0 - self.column,
            Orientation::Vertical => p.1 - self.row,
        }
    }

    /// Whether `p` is one of the ship's cells.
    pub open spec fn covers(self, p: (int, int)) -> bool {
        0 <= self.offset_of(p) < self.length && self.cell(self.offset_of(p)) == p
    }

    /// Whether every cell of the ship lies inside the grid.
    pub open spec fn fits(self) -> bool {
        &&& self.length >= 1
        &&& in_grid((self.column, self.row))
        &&& in_grid(self.cell(self.length - 1))
    }

    /// The hits lie on the ship.
    pub open spec fn wf(self) -> bool {
        &&& self.length >= 0
        &&& forall|k: int| self.hits.contains(k) ==> 0 <= k < self.length
    }

    /// Whether the cell `p` belongs to the ship and has been struck.
    pub open spec fn is_hit_at(self, p: (int, int)) -> bool {
        self.covers(p) && self.hits.contains(self.offset_of(p))
    }

    /// What the grid shows at a cell of the ship: `Hit` where the cell has
    /// been struck, `Occupied` where it has not.
    pub open spec fn shown_at(self, p: (int, int)) -> CellState {
        if self.is_hit_at(p) {
            CellState::Hit
        } else {
            CellState::Occupied
        }
    }

    /// The ship after a shot at `p`: unchanged where `p` is none of its cells.
    pub open spec fn with_hit(self, p: (int, int)) -> ShipView {
        if self.covers(p) {
            ShipView { hits: self.hits.insert(self.offset_of(p)), ..self }
        } else {
            self
        }
    }

    /// Number of distinct cells of the ship that were struck.
    pub open spec fn hit_count(self) -> nat {
        self.hits.len()
    }

    /// Whether every cell of the ship has been struck.
    pub open spec fn is_sunk(self) -> bool {
        forall|k: int| 0 <= k < self.length ==> self.hits.contains(k)
    }

    /// A cell is covered exactly when it is one of `cells()`.
    pub proof fn lemma_covers_iff_in_cells(self, p: (int, int))
        requires
            self.length >= 0,
        ensures
            self.covers(p) <==> self.cells().contains(p),
    {
        if self.covers(p) {
            assert(self.cells()[self.offset_of(p)] == p);
        }
        if self.cells().contains(p) {
            let k = choose|k: int| 0 <= k < self.cells().len() && self.cells()[k] == p;
            assert(self.offset_of(p) == k);
        }
    }

    /// The hits of a well-formed ship are finitely many, at most one per cell.
    pub proof fn lemma_hits_bounded(self)
        requires
            self.wf(),
        ensures
            self.hits.finite(),
            self.hit_count() <= self.length,
    {
        lemma_int_range(0, self.length);
        assert(self.hits.subset_of(set_int_range(0, self.length)));
        lemma_len_subset(self.hits, set_int_range(0, self.length));
    }

    /// A ship is sunk exactly when the number of distinct struck cells equals
    /// its length.
    pub proof fn lemma_sunk_iff_all_cells_hit(self)
        requires
            self.wf(),
        ensures
            self.is_sunk() <==> self.hit_count() == self.length,
    {
        let all = set_int_range(0, self.length);
        lemma_int_range(0, self.length);
        assert(self.hits.subset_of(all));
        lemma_len_subset(self.hits, all);
        if self.is_sunk() {
            assert(self.hits =~= all);
        }
        if self.hit_count() == self.length {
            lemma_subset_equality(self.hits, all);
            assert forall|k: int| 0 <= k < self.length implies self.hits.contains(k) by {
                assert(all.contains(k));
            }
        }
    }

    /// A shot at a cell of the ship that was not struck before raises the hit
    /// count by exactly one; any other shot leaves it as it was.
    pub proof fn lemma_with_hit_count(self, p: (int, int))
        requires
            self.wf(),
        ensures
            self.with_hit(p).wf(),
            self.covers(p) && !self.is_hit_at(p) ==> self.with_hit(p).hit_count()
                == self.hit_count() + 1,
            !self.covers(p) || self.is_hit_at(p) ==> self.with_hit(p).hit_count()
                == self.hit_count(),
    {
        self.lemma_hits_bounded();
        if self.covers(p) && self.is_hit_at(p) {
            assert(self.hits.insert(self.offset_of(p)) =~= self.hits);
        }
    }
}

/// A ship: anchor, length, orientation and one mark per cell.
#[derive(Debug)]
pub struct Ship {
    anchor: Coordinate,
    length: usize,
    orientation: Orientation,
    struck: Vec<bool>,
}

impl View for Ship {
    type V = ShipView;

    closed spec fn view(&self) -> ShipView {
        ShipView {
            column: self.anchor@.0,
            row: self.anchor@.1,
            length: self.length as int,
            orientation: self.orientation,
            hits: Set::new(|k: int| 0 <= k < self.struck@.len() && self.struck@[k]),
        }
    }
}

impl Ship {
    /// One mark per cell.
    pub closed spec fn wf(&self) -> bool {
        self.struck@.len() == self.length
    }

    /// The model of a well-formed ship is well formed.
    pub proof fn lemma_view_wf(&self)
        requires
            self.wf(),
        ensures
            self@.wf(),
    {
    }

    /// A ship of `length` cells at `anchor` without hits. Neither the length
    /// nor the footprint is held against the grid here: that is the board's
    /// part.
    pub fn new(anchor: Coordinate, length: usize, orientation: Orientation) -> (ship: Ship)
        ensures
            ship.wf(),
            ship@ == ShipView::fresh(anchor@, length as int, orientation),
    {
        let mut struck: Vec<bool> = Vec::new();
        let mut k: usize = 0;
        while k < length
            invariant
                k <= length,
                struck@.len() == k,
                forall|j: int| 0 <= j < k ==> !struck@[j],
            decreases length - k,
        {
            struck.push(false);
            k += 1;
        }
        let ship = Ship { anchor, length, orientation, struck };
        assert(ship@.hits =~= Set::empty());
        ship
    }

    /// The anchor cell.
    pub fn anchor(&self) -> (a: Coordinate)
        ensures
            a@ == (self@.column, self@.row),
    {
        self.anchor
    }

    /// The number of cells.
    pub fn length(&self) -> (n: usize)
        ensures
            n == self@.length,
    {
        self.length
    }

    /// The axis of the ship.
    pub fn orientation(&self) -> (o: Orientation)
        ensures
            o == self@.orientation,
    {
        self.orientation
    }

    /// Whether `coord` is one of the ship's cells.
    pub fn covers(&self, coord: Coordinate) -> (b: bool)
        ensures
            b == self@.covers(coord@),
    {
        let c: usize = coord.column();
        let r: usize = coord.row();
        let ac: usize = self.anchor.column();
        let ar: usize = self.anchor.row();
        match self.orientation {
            Orientation::Horizontal => r == ar && c >= ac && c - ac < self.length,
            Orientation::Vertical => c == ac && r >= ar && r - ar < self.length,
        }
    }

    /// Whether the whole footprint lies inside the grid.
    pub fn fits(&self) -> (b: bool)
        ensures
            b == self@.fits(),
    {
        let ac: usize = self.anchor.column();
        let ar: usize = self.anchor.row();
        match self.orientation {
            Orientation::Horizontal => self.length >= 1 && self.length <= BOARD_WIDTH - ac,
            Orientation::Vertical => self.length >= 1 && self.length <= BOARD_HEIGHT - ar,
        }
    }

    /// The cells of the ship in order, anchor first, or `OutOfBounds` where
    /// one of them would lie outside the grid.
    pub fn occupied_cells(&self) -> (res: Result<Vec<Coordinate>, PlacementError>)
        ensures
            match res {
                Ok(cells) => {
                    &&& self@.fits()
                    &&& cells@.len() == self@.length
                    &&& forall|k: int|
                        0 <= k < self@.length ==> (#[trigger] cells@[k])@ == self@.cell(k)
                },
                Err(e) => !self@.fits() && e == PlacementError::OutOfBounds,
            },
    {
        if !self.fits() {
            return Err(PlacementError::OutOfBounds);
        }
        let ac: usize = self.anchor.column();
        let ar: usize = self.anchor.row();
        let mut cells: Vec<Coordinate> = Vec::new();
        let mut k: usize = 0;
        while k < self.length
            invariant
                self@.fits(),
                ac == self@.column,
                ar == self@.row,
                k <= self.length,
                cells@.len() == k,
                forall|j: int| 0 <= j < k ==> (#[trigger] cells@[j])@ == self@.cell(j),
            decreases self.length - k,
        {
            let made = match self.orientation {
                Orientation::Horizontal => Coordinate::make(ac + k, ar),
                Orientation::Vertical => Coordinate::make(ac, ar + k),
            };
            match made {
                Ok(c) => {
                    cells.push(c);
                },
                Err(e) => {
                    return Err(e);
                },
            }
            k += 1;
        }
        Ok(cells)
    }

    /// Marks the cell at `coord` as struck. A coordinate that is none of the
    /// ship's cells changes nothing, and so does a cell struck before.
    pub fn register_hit(&mut self, coord: Coordinate)
        requires
            old(self).wf(),
        ensures
            final(self).wf(),
            final(self)@ == old(self)@.with_hit(coord@),
    {
        if self.covers(coord) {
            let k: usize = match self.orientation {
                Orientation::Horizontal => coord.column() - self.anchor.column(),
                Orientation::Vertical => coord.row() - self.anchor.row(),
            };
            self.struck.set(k, true);
            assert(final(self)@.hits =~= old(self)@.hits.insert(k as int));
        }
    }

    /// Whether the cell at `coord` belongs to the ship and has been struck.
    pub fn is_hit_at(&self, coord: Coordinate) -> (b: bool)
        requires
            self.wf(),
        ensures
            b == self@.is_hit_at(coord@),
    {
        if self.covers(coord) {
            let k: usize = match self.orientation {
                Orientation::Horizontal => coord.column() - self.anchor.column(),
                Orientation::Vertical => coord.row() - self.anchor.row(),
            };
            self.struck[k]
        } else {
            false
        }
    }

    /// The number of distinct cells of the ship that were struck.
    pub fn hit_count(&self) -> (n: usize)
        requires
            self.wf(),
        ensures
            n == self@.hit_count(),
    {
        let mut n: usize = 0;
        let mut k: usize = 0;
        let ghost marks = self.struck@;
        assert(Set::new(|j: int| 0 <= j < 0 && marks[j]) =~= Set::<int>::empty());
        while k < self.length
            invariant
                self.wf(),
                marks == self.struck@,
                k <= self.length,
                n <= k,
                Set::new(|j: int| 0 <= j < k && marks[j]).finite(),
                n == Set::new(|j: int| 0 <= j < k && marks[j]).len(),
            decreases self.length - k,
        {
            let ghost before = Set::new(|j: int| 0 <= j < k && marks[j]);
            let ghost after = Set::new(|j: int| 0 <= j < k + 1 && marks[j]);
            if self.struck[k] {
                assert(after =~= before.insert(k as int));
                n += 1;
            } else {
                assert(after =~= before);
            }
            k += 1;
        }
        assert(self@.hits =~= Set::new(|j: int| 0 <= j < k && marks[j]));
        n
    }

    /// Whether every cell of the ship has been struck.
    pub fn is_sunk(&self) -> (b: bool)
        requires
            self.wf(),
        ensures
            b == self@.is_sunk(),
    {
        let mut k: usize = 0;
        while k < self.length
            invariant
                self.wf(),
                k <= self.length,
                forall|j: int| 0 <= j < k ==> self@.hits.contains(j),
            decreases self.length - k,
        {
            if !self.struck[k] {
                assert(!self@.hits.contains(k as int));
                return false;
            }
            k += 1;
        }
        true
    }
}

} // verus!
