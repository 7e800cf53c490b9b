//! The cell store: the one owner of every cell's state.

use crate::grid::{create_grid, Cell, CellView, Grid, GridView, Index};
use crate::rules::AliveSet;
use vstd::prelude::*;
use vstd::set_lib::lemma_len_subset;

verus! {

/// The mathematical cell store: a grid, the viewport height its cells were
/// laid out for, and the sets of live and of hovered positions.
pub struct StoreView {
    pub grid: GridView,
    pub viewport_height: nat,
    pub alive: Set<(int, int)>,
    pub hovered: Set<(int, int)>,
}

impl StoreView {
    /// The grid is well formed and only positions of the grid are live or
    /// hovered.
    pub open spec fn wf(self) -> bool {
        &&& self.grid.wf()
        &&& self.alive.subset_of(self.grid.positions())
        &&& self.hovered.subset_of(self.grid.positions())
    }

    /// The store of a freshly laid-out board: nothing live, nothing hovered.
    pub open spec fn fresh(grid: GridView, viewport_height: nat) -> StoreView {
        StoreView { grid, viewport_height, alive: Set::empty(), hovered: Set::empty() }
    }

    /// The cell at position `p`.
    pub open spec fn cell(self, p: (int, int)) -> CellView {
        CellView {
            hovered: self.hovered.contains(p),
            alive: self.alive.contains(p),
            coord: self.grid.center(p, self.viewport_height as int),
            index: p,
        }
    }

    /// The store after the cell at `p` is made live or dead. A position off
    /// the grid names no cell, and nothing changes.
    pub open spec fn set_alive(self, p: (int, int), value: bool) -> StoreView {
        if !self.grid.contains(p) {
            self
        } else if value {
            StoreView { alive: self.alive.insert(p), ..self }
        } else {
            StoreView { alive: self.alive.remove(p), ..self }
        }
    }

    /// The store after the cell at `p` is marked hovered or not. A position
    /// off the grid names no cell, and nothing changes.
    pub open spec fn set_hovered(self, p: (int, int), value: bool) -> StoreView {
        if !self.grid.contains(p) {
            self
        } else if value {
            StoreView { hovered: self.hovered.insert(p), ..self }
        } else {
            StoreView { hovered: self.hovered.remove(p), ..self }
        }
    }

    /// The store with every cell dead and unhovered.
    pub open spec fn reset_all(self) -> StoreView {
        StoreView { alive: Set::empty(), hovered: Set::empty(), ..self }
    }

    /// A well-formed store holds finitely many live and hovered cells, no
    /// more than the grid has positions.
    pub proof fn lemma_finite(self)
        requires
            self.wf(),
        ensures
            self.alive.finite(),
            self.hovered.finite(),
            self.alive.len() <= self.grid.cell_count(),
            self.hovered.len() <= self.grid.cell_count(),
    {
        self.grid.lemma_position_count();
        lemma_len_subset(self.alive, self.grid.positions());
        lemma_len_subset(self.hovered, self.grid.positions());
    }

    /// Resetting leaves every cell dead and unhovered on the same grid, and
    /// resetting twice is resetting once.
    pub proof fn lemma_reset_idempotent(self)
        ensures
            self.reset_all().reset_all() == self.reset_all(),
            self.reset_all().alive == Set::<(int, int)>::empty(),
            self.reset_all().hovered == Set::<(int, int)>::empty(),
            self.reset_all().grid == self.grid,
            self.reset_all().viewport_height == self.viewport_height,
    {
    }

    /// Writing a flag changes the cell it names and no other: afterwards
    /// that cell holds the value written, every other cell is as it was,
    /// and a well-formed store is still well formed.
    pub proof fn lemma_writes_are_local(self, p: (int, int), value: bool, q: (int, int))
        requires
            self.wf(),
        ensures
            self.set_alive(p, value).wf(),
            self.set_hovered(p, value).wf(),
            self.grid.contains(p) ==> self.set_alive(p, value).cell(p).alive == value,
            self.grid.contains(p) ==> self.set_hovered(p, value).cell(p).hovered == value,
            q != p ==> self.set_alive(p, value).cell(q) == self.cell(q),
            q != p ==> self.set_hovered(p, value).cell(q) == self.cell(q),
            self.set_alive(p, value).hovered == self.hovered,
            self.set_hovered(p, value).alive == self.alive,
    {
    }
}

/// Overwrites slot `k` of `cells`. It cannot unwind, so the store may call
/// it on its own cells and still answer for its invariant afterwards.
fn put(cells: &mut Vec<Cell>, k: usize, cell: Cell)
    requires
        k < old(cells).len(),
    ensures
        final(cells)@ == old(cells)@.update(k as int, cell),
    no_unwind
{
    cells[k] = cell;
}

/// The cell store: one cell per position of its grid, in slot order.
#[derive(Debug)]
pub struct CellStore {
    grid: Grid,
    viewport_height: u32,
    cells: Vec<Cell>,
}

impl View for CellStore {
    type V = StoreView;

    closed spec fn view(&self) -> StoreView {
        StoreView {
            grid: self.grid@,
            viewport_height: self.viewport_height as nat,
            alive: Set::new(
                |p: (int, int)| self.grid@.contains(p) && self.cells[self.grid@.slot(p)].alive,
            ),
            hovered: Set::new(
                |p: (int, int)| self.grid@.contains(p) && self.cells[self.grid@.slot(p)].hovered,
            ),
        }
    }
}

impl CellStore {
    /// Every slot holds the cell of its position, with the centre the
    /// layout gives it.
    pub closed spec fn laid_out(self) -> bool {
        &&& self.cells.len() == self.grid@.cell_count()
        &&& forall|k: int|
            0 <= k < self.cells.len() ==> {
                &&& (#[trigger] self.cells[k]).index@ == self.grid@.index_at(k)
                &&& self.cells[k].coord@ == self.grid@.center(
                    self.grid@.index_at(k),
                    self.viewport_height as int,
                )
            }
    }

    /// What holds of every store: it is well formed, on a grid that fits
    /// the machine, and laid out.
    #[verifier::type_invariant]
    pub open spec fn inv(self) -> bool {
        self@.wf() && self@.grid.fits() && self.laid_out()
    }

    /// The store of a freshly laid-out board.
    pub fn new(grid: Grid, viewport_height: u32) -> (store: Self)
        ensures
            store@ == StoreView::fresh(grid@, viewport_height as nat),
    {
        let cells = create_grid(&grid, viewport_height);
        proof {
            use_type_invariant(&grid);
        }
        let store = CellStore { grid, viewport_height, cells };
        proof {
            assert forall|p: (int, int)| grid@.contains(p) implies 0 <= grid@.slot(p)
                < store.cells.len() by {
                grid@.lemma_slot_index(p);
            }
            assert(store@.alive =~= Set::<(int, int)>::empty());
            assert(store@.hovered =~= Set::<(int, int)>::empty());
        }
        store
    }

    pub fn grid(&self) -> (grid: &Grid)
        ensures
            grid@ == self@.grid,
    {
        &self.grid
    }

    pub fn viewport_height(&self) -> (height: u32)
        ensures
            height == self@.viewport_height,
    {
        self.viewport_height
    }

    /// Number of cells.
    pub fn len(&self) -> (n: usize)
        ensures
            n == self@.grid.cell_count(),
    {
        proof {
            use_type_invariant(self);
        }
        self.cells.len()
    }

    /// All cells in slot order: rows first, columns within a row.
    pub fn cells(&self) -> (cells: &Vec<Cell>)
        ensures
            cells.len() == self@.grid.cell_count(),
            forall|k: int|
                0 <= k < cells.len()
                    ==> (#[trigger] cells[k])@ == self@.cell(self@.grid.index_at(k)),
    {
        proof {
            use_type_invariant(self);
            assert forall|k: int| 0 <= k < self.cells.len() implies (#[trigger] self.cells[k])@
                == self@.cell(self@.grid.index_at(k)) by {
                self.grid@.lemma_index_slot(k);
            }
        }
        &self.cells
    }

    /// The cell at `index`, or `None` when `index` lies off the grid.
    pub fn cell(&self, index: Index) -> (cell: Option<Cell>)
        ensures
            cell is Some <==> self@.grid.contains(index@),
            cell matches Some(c) ==> c@ == self@.cell(index@),
    {
        proof {
            use_type_invariant(self);
        }
        match self.grid.slot(index) {
            Some(k) => {
                proof {
                    self.grid@.lemma_slot_index(index@);
                }
                Some(self.cells[k])
            },
            None => None,
        }
    }

    /// Makes the cell at `index` live or dead.
    pub fn set_alive(&mut self, index: Index, value: bool)
        ensures
            final(self)@ == old(self)@.set_alive(index@, value),
    {
        proof {
            use_type_invariant(&*self);
        }
        match self.grid.slot(index) {
            Some(k) => {
                let mut cell = self.cells[k];
                cell.alive = value;
                put(&mut self.cells, k, cell);
                proof {
                    let g = self.grid@;
                    assert forall|p: (int, int)| g.contains(p) implies 0 <= g.slot(p)
                        < self.cells.len() && (p != index@ ==> g.slot(p) != k) by {
                        g.lemma_slot_index(p);
                        g.lemma_slot_index(index@);
                    }
                    assert(self@.hovered =~= old(self)@.hovered);
                    assert(self@.alive =~= old(self)@.set_alive(index@, value).alive);
                }
            },
            None => {},
        }
    }

    /// Marks the cell at `index` as hovered or not.
    pub fn set_hovered(&mut self, index: Index, value: bool)
        ensures
            final(self)@ == old(self)@.set_hovered(index@, value),
    {
        proof {
            use_type_invariant(&*self);
        }
        match self.grid.slot(index) {
            Some(k) => {
                let mut cell = self.cells[k];
                cell.hovered = value;
                put(&mut self.cells, k, cell);
                proof {
                    let g = self.grid@;
                    assert forall|p: (int, int)| g.contains(p) implies 0 <= g.slot(p)
                        < self.cells.len() && (p != index@ ==> g.slot(p) != k) by {
                        g.lemma_slot_index(p);
                        g.lemma_slot_index(index@);
                    }
                    assert(self@.alive =~= old(self)@.alive);
                    assert(self@.hovered =~= old(self)@.set_hovered(index@, value).hovered);
                }
            },
            None => {},
        }
    }

    /// The positions of all cells that are live now.
    pub fn snapshot_alive(&self) -> (snapshot: AliveSet)
        ensures
            snapshot@ == self@.alive,
    {
        proof {
            use_type_invariant(self);
        }
        let mut snapshot = AliveSet::new();
        let mut k: usize = 0;
        while k < self.cells.len()
            invariant
                k <= self.cells.len(),
                self.inv(),
                forall|p: (int, int)|
                    snapshot@.contains(p) <==> self.grid@.contains(p) && self.grid@.slot(p) < k
                        && self.cells[self.grid@.slot(p)].alive,
            decreases self.cells.len() - k,
        {
            let cell = self.cells[k];
            proof {
                let g = self.grid@;
                g.lemma_index_slot(k as int);
                assert forall|p: (int, int)| g.contains(p) && p != cell.index@ implies g.slot(p)
                    != k by {
                    g.lemma_slot_index(p);
                }
            }
            if cell.alive {
                snapshot.insert(cell.index);
            }
            k += 1;
        }
        proof {
            assert forall|p: (int, int)| self.grid@.contains(p) implies self.grid@.slot(p)
                < self.cells.len() by {
                self.grid@.lemma_slot_index(p);
            }
        }
        snapshot
    }

    /// Makes every cell dead and unhovered.
    pub fn reset_all(&mut self)
        ensures
            final(self)@ == old(self)@.reset_all(),
    {
        proof {
            use_type_invariant(&*self);
        }
        let mut k: usize = 0;
        while k < self.cells.len()
            invariant
                k <= self.cells.len(),
                self.inv(),
                self.grid == old(self).grid,
                self.viewport_height == old(self).viewport_height,
                forall|j: int|
                    0 <= j < k ==> !(#[trigger] self.cells[j]).alive && !self.cells[j].hovered,
            decreases self.cells.len() - k,
        {
            let mut cell = self.cells[k];
            cell.alive = false;
            cell.hovered = false;
            put(&mut self.cells, k, cell);
            k += 1;
        }
        proof {
            assert forall|p: (int, int)| self.grid@.contains(p) implies 0 <= self.grid@.slot(p)
                < self.cells.len() by {
                self.grid@.lemma_slot_index(p);
            }
            assert(self@.alive =~= Set::<(int, int)>::empty());
            assert(self@.hovered =~= Set::<(int, int)>::empty());
        }
    }
}

} // verus!
