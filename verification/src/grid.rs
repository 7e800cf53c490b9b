//! Grid geometry: dimensions, the mapping between cell indices and storage
//! slots, and the screen-space centre of every cell.

use vstd::arithmetic::div_mod::*;
use vstd::arithmetic::mul::*;
use vstd::prelude::*;
use vstd::relations::injective_on;
use vstd::set_lib::{lemma_int_range, lemma_map_size, set_int_range};

verus! {

/// Rows of the default board.
pub const DEFAULT_ROWS: u16 = 20;

/// Columns of the default board.
pub const DEFAULT_COLS: u16 = 20;

/// Side of a cell's square, in device units.
pub const DEFAULT_CELL_SIZE: u16 = 30;

/// Space between neighbouring squares, in device units.
pub const DEFAULT_GAP_SIZE: u16 = 2;

/// Position of a cell: `x` counts rows, `y` counts columns.
#[derive(Debug, Clone, Copy, PartialEq, Eq, Structural, Hash)]
pub struct Index {
    pub x: i32,
    pub y: i32,
}

impl View for Index {
    type V = (int, int);

    open spec fn view(&self) -> (int, int) {
        (self.x as int, self.y as int)
    }
}

impl Index {
    pub fn new(x: i32, y: i32) -> (index: Self)
        ensures
            index.x == x,
            index.y == y,
    {
        Index { x, y }
    }
}

/// A point of screen space.
#[derive(Debug, Clone, Copy, PartialEq, Eq, Structural, Hash)]
pub struct Point {
    pub x: i64,
    pub y: i64,
}

impl View for Point {
    type V = (int, int);

    open spec fn view(&self) -> (int, int) {
        (self.x as int, self.y as int)
    }
}

impl Point {
    pub fn new(x: i64, y: i64) -> (point: Self)
        ensures
            point.x == x,
            point.y == y,
    {
        Point { x, y }
    }
}

/// One cell of the board. `coord` is the centre of its square and `index`
/// its position; both are fixed when the board is laid out.
#[derive(Debug, Clone, Copy, PartialEq, Eq, Structural)]
pub struct Cell {
    pub hovered: bool,
    pub alive: bool,
    pub coord: Point,
    pub index: Index,
}

/// The mathematical grid: dimensions and layout constants.
pub struct GridView {
    pub rows: nat,
    pub cols: nat,
    pub cell_size: nat,
    pub gap_size: nat,
}

impl GridView {
    /// Both dimensions are positive.
    pub open spec fn wf(self) -> bool {
        self.rows > 0 && self.cols > 0
    }

    /// Each dimension and layout constant fits in sixteen bits, as those of
    /// every [`Grid`] do.
    pub open spec fn fits(self) -> bool {
        &&& self.rows <= u16::MAX
        &&& self.cols <= u16::MAX
        &&& self.cell_size <= u16::MAX
        &&& self.gap_size <= u16::MAX
    }

    /// Whether `p` names a cell of this grid.
    pub open spec fn contains(self, p: (int, int)) -> bool {
        0 <= p.0 < self.rows && 0 <= p.1 < self.cols
    }

    /// All positions of the grid.
    pub open spec fn positions(self) -> Set<(int, int)> {
        Set::new(|p: (int, int)| self.contains(p))
    }

    /// Number of cells.
    pub open spec fn cell_count(self) -> nat {
        self.rows * self.cols
    }

    /// Storage slot of position `p`, rows first.
    pub open spec fn slot(self, p: (int, int)) -> int {
        p.0 * self.cols + p.1
    }

    /// Position held by storage slot `k`.
    pub open spec fn index_at(self, k: int) -> (int, int) {
        (k / (self.cols as int), k % (self.cols as int))
    }

    /// Distance between the centres of neighbouring cells.
    pub open spec fn pitch(self) -> int {
        (self.cell_size + self.gap_size) as int
    }

    /// Centre of the cell at `p`. Rows run along the horizontal axis and are
    /// centred on the origin; columns run along the vertical axis, shifted
    /// down by a quarter of the viewport height.
    pub open spec fn center(self, p: (int, int), viewport_height: int) -> (int, int) {
        (
            p.0 * self.pitch() - (self.rows * self.pitch()) / 2,
            p.1 * self.pitch() - viewport_height / 4,
        )
    }

    /// The cell a freshly laid-out board holds in slot `k`.
    pub open spec fn fresh_cell(self, k: int, viewport_height: int) -> CellView {
        CellView {
            hovered: false,
            alive: false,
            coord: self.center(self.index_at(k), viewport_height),
            index: self.index_at(k),
        }
    }

    /// `slot` and `index_at` are inverse to each other on the grid.
    pub proof fn lemma_slot_index(self, p: (int, int))
        requires
            self.wf(),
            self.contains(p),
        ensures
            0 <= self.slot(p) < self.cell_count(),
            self.index_at(self.slot(p)) == p,
    {
        let c = self.cols as int;
        lemma_fundamental_div_mod_converse(self.slot(p), c, p.0, p.1);
        assert(p.0 * c + p.1 < self.rows * c) by (nonlinear_arith)
            requires
                0 <= p.0 < self.rows,
                0 <= p.1 < c,
        ;
        assert(0 <= p.0 * c) by (nonlinear_arith)
            requires
                0 <= p.0,
                0 < c,
        ;
    }

    /// Every slot below `cell_count` holds a position of the grid, and is
    /// that position's slot.
    pub proof fn lemma_index_slot(self, k: int)
        requires
            self.wf(),
            0 <= k < self.cell_count(),
        ensures
            self.contains(self.index_at(k)),
            self.slot(self.index_at(k)) == k,
    {
        let c = self.cols as int;
        lemma_fundamental_div_mod(k, c);
        lemma_mod_bound(k, c);
        lemma_div_pos_is_pos(k, c);
        lemma_mul_is_commutative(c, k / c);
        assert(k / c < self.rows) by (nonlinear_arith)
            requires
                k == (k / c) * c + k % c,
                0 <= k % c,
                k < self.rows * c,
                0 < c,
        ;
    }

    /// The grid has exactly `rows * cols` positions.
    pub proof fn lemma_position_count(self)
        requires
            self.wf(),
        ensures
            self.positions().finite(),
            self.positions().len() == self.cell_count(),
    {
        let slots = set_int_range(0, self.cell_count() as int);
        let at = |k: int| self.index_at(k);
        lemma_int_range(0, self.cell_count() as int);
        assert(injective_on(at, slots)) by {
            assert forall|i: int, j: int|
                slots.contains(i) && slots.contains(j) && #[trigger] at(i) == #[trigger] at(j)
                implies i == j by {
                self.lemma_index_slot(i);
                self.lemma_index_slot(j);
            }
        }
        assert(slots.map(at) =~= self.positions()) by {
            assert forall|p: (int, int)| self.positions().contains(p)
                implies slots.map(at).contains(p) by {
                self.lemma_slot_index(p);
                assert(slots.contains(self.slot(p)) && at(self.slot(p)) == p);
            }
            assert forall|p: (int, int)| slots.map(at).contains(p)
                implies self.positions().contains(p) by {
                let k = choose|k: int| slots.contains(k) && p == at(k);
                self.lemma_index_slot(k);
            }
        }
        lemma_map_size(slots, self.positions(), at);
    }
}

/// The mathematical value of a [`Cell`].
pub struct CellView {
    pub hovered: bool,
    pub alive: bool,
    pub coord: (int, int),
    pub index: (int, int),
}

impl View for Cell {
    type V = CellView;

    open spec fn view(&self) -> CellView {
        CellView {
            hovered: self.hovered,
            alive: self.alive,
            coord: self.coord@,
            index: self.index@,
        }
    }
}

/// An immutable grid: positive dimensions plus the layout constants that
/// place its cells on the screen.
#[derive(Debug, Clone, Copy)]
pub struct Grid {
    rows: u16,
    cols: u16,
    cell_size: u16,
    gap_size: u16,
}

impl View for Grid {
    type V = GridView;

    closed spec fn view(&self) -> GridView {
        GridView {
            rows: self.rows as nat,
            cols: self.cols as nat,
            cell_size: self.cell_size as nat,
            gap_size: self.gap_size as nat,
        }
    }
}

impl Default for Grid {
    /// The default board: twenty by twenty cells of thirty units, two units
    /// apart.
    fn default() -> (grid: Self)
        ensures
            grid@ == (GridView { rows: 20, cols: 20, cell_size: 30, gap_size: 2 }),
    {
        Grid {
            rows: DEFAULT_ROWS,
            cols: DEFAULT_COLS,
            cell_size: DEFAULT_CELL_SIZE,
            gap_size: DEFAULT_GAP_SIZE,
        }
    }
}

impl Grid {
    /// What holds of every grid: it is well formed and fits the machine.
    #[verifier::type_invariant]
    pub open spec fn inv(self) -> bool {
        self@.wf() && self@.fits()
    }

    /// A grid of `rows` by `cols` cells, or `None` when a dimension is zero.
    pub fn new(rows: u16, cols: u16, cell_size: u16, gap_size: u16) -> (grid: Option<Self>)
        ensures
            grid is Some <==> rows > 0 && cols > 0,
            grid matches Some(g) ==> g@ == (GridView {
                rows: rows as nat,
                cols: cols as nat,
                cell_size: cell_size as nat,
                gap_size: gap_size as nat,
            }),
    {
        if rows > 0 && cols > 0 {
            Some(Grid { rows, cols, cell_size, gap_size })
        } else {
            None
        }
    }

    pub fn rows(&self) -> (rows: u16)
        ensures
            rows == self@.rows,
            rows > 0,
    {
        proof {
            use_type_invariant(self);
        }
        self.rows
    }

    pub fn cols(&self) -> (cols: u16)
        ensures
            cols == self@.cols,
            cols > 0,
    {
        proof {
            use_type_invariant(self);
        }
        self.cols
    }

    pub fn cell_size(&self) -> (cell_size: u16)
        ensures
            cell_size == self@.cell_size,
    {
        self.cell_size
    }

    pub fn gap_size(&self) -> (gap_size: u16)
        ensures
            gap_size == self@.gap_size,
    {
        self.gap_size
    }

    /// Number of cells.
    pub fn cell_count(&self) -> (n: usize)
        ensures
            n == self@.cell_count(),
            n > 0,
    {
        proof {
            use_type_invariant(self);
            assert(0 < self.rows * self.cols <= u32::MAX) by (nonlinear_arith)
                requires
                    0 < self.rows <= 0xffff,
                    0 < self.cols <= 0xffff,
            ;
        }
        self.rows as usize * self.cols as usize
    }

    /// Whether `index` names a cell of this grid.
    pub fn contains(&self, index: Index) -> (inside: bool)
        ensures
            inside == self@.contains(index@),
    {
        0 <= index.x && (index.x as i64) < self.rows as i64 && 0 <= index.y && (index.y as i64)
            < self.cols as i64
    }

    /// Storage slot of `index`, or `None` when it lies outside the grid.
    pub fn slot(&self, index: Index) -> (slot: Option<usize>)
        ensures
            slot is Some <==> self@.contains(index@),
            slot matches Some(k) ==> k == self@.slot(index@) && k < self@.cell_count(),
    {
        if self.contains(index) {
            proof {
                use_type_invariant(self);
                self@.lemma_slot_index(index@);
                assert(self.rows * self.cols <= u32::MAX) by (nonlinear_arith)
                    requires
                        self.rows <= 0xffff,
                        self.cols <= 0xffff,
                ;
            }
            Some(index.x as usize * self.cols as usize + index.y as usize)
        } else {
            None
        }
    }

    /// Position held by storage slot `k`, or `None` when `k` is past the end.
    pub fn index_at(&self, k: usize) -> (index: Option<Index>)
        ensures
            index is Some <==> k < self@.cell_count(),
            index matches Some(i) ==> i@ == self@.index_at(k as int),
    {
        if k < self.cell_count() {
            proof {
                use_type_invariant(self);
                self@.lemma_index_slot(k as int);
            }
            let cols: usize = self.cols as usize;
            Some(Index { x: (k / cols) as i32, y: (k % cols) as i32 })
        } else {
            None
        }
    }

    /// Centre of the square of the cell at `index`.
    pub fn center(&self, index: Index, viewport_height: u32) -> (point: Point)
        ensures
            point@ == self@.center(index@, viewport_height as int),
    {
        let pitch: i64 = self.cell_size as i64 + self.gap_size as i64;
        proof {
            assert(0 <= self.rows * pitch <= 0x1_0000 * 0x2_0000) by (nonlinear_arith)
                requires
                    0 <= self.rows < 0x1_0000,
                    0 <= pitch < 0x2_0000,
            ;
            assert(-0x8000_0000 * 0x2_0000 <= index.x * pitch <= 0x8000_0000 * 0x2_0000)
                by (nonlinear_arith)
                requires
                    -0x8000_0000 <= index.x < 0x8000_0000,
                    0 <= pitch < 0x2_0000,
            ;
            assert(-0x8000_0000 * 0x2_0000 <= index.y * pitch <= 0x8000_0000 * 0x2_0000)
                by (nonlinear_arith)
                requires
                    -0x8000_0000 <= index.y < 0x8000_0000,
                    0 <= pitch < 0x2_0000,
            ;
        }
        let half_width: u64 = (self.rows as u64 * pitch as u64) / 2;
        let quarter_height: u32 = viewport_height / 4;
        Point {
            x: index.x as i64 * pitch - half_width as i64,
            y: index.y as i64 * pitch - quarter_height as i64,
        }
    }
}

/// Lays out the board: one dead, unhovered cell per position, rows first,
/// each with the centre of its square. The positions of the cells are
/// pairwise distinct and cover the grid.
pub fn create_grid(grid: &Grid, viewport_height: u32) -> (cells: Vec<Cell>)
    ensures
        cells.len() == grid@.cell_count(),
        forall|k: int|
            0 <= k < cells.len()
                ==> (#[trigger] cells[k])@ == grid@.fresh_cell(k, viewport_height as int),
        forall|k: int| 0 <= k < cells.len() ==> grid@.contains((#[trigger] cells[k]).index@),
        forall|i: int, j: int|
            0 <= i < j < cells.len()
                ==> (#[trigger] cells[i]).index != (#[trigger] cells[j]).index,
        forall|p: (int, int)|
            grid@.contains(p)
                ==> 0 <= #[trigger] grid@.slot(p) < cells.len() && cells[grid@.slot(p)].index@ == p,
{
    let rows = grid.rows();
    let cols = grid.cols();
    let mut cells: Vec<Cell> = Vec::new();
    let mut row: u16 = 0;
    while row < rows
        invariant
            rows == grid@.rows,
            cols == grid@.cols,
            cols > 0,
            row <= rows,
            cells.len() == row * cols,
            forall|k: int|
                0 <= k < cells.len()
                    ==> (#[trigger] cells[k])@ == grid@.fresh_cell(k, viewport_height as int),
        decreases rows - row,
    {
        let mut col: u16 = 0;
        while col < cols
            invariant
                rows == grid@.rows,
                cols == grid@.cols,
                cols > 0,
                row < rows,
                col <= cols,
                cells.len() == row * cols + col,
                forall|k: int|
                    0 <= k < cells.len()
                        ==> (#[trigger] cells[k])@ == grid@.fresh_cell(k, viewport_height as int),
            decreases cols - col,
        {
            let index = Index::new(row as i32, col as i32);
            let coord = grid.center(index, viewport_height);
            proof {
                lemma_fundamental_div_mod_converse(
                    cells.len() as int,
                    cols as int,
                    row as int,
                    col as int,
                );
            }
            cells.push(Cell { hovered: false, alive: false, coord, index });
            col += 1;
        }
        proof {
            assert(row * cols + cols == (row + 1) * cols) by (nonlinear_arith);
        }
        row += 1;
    }
    proof {
        use_type_invariant(grid);
        assert forall|k: int| 0 <= k < cells.len() implies grid@.contains(
            (#[trigger] cells[k]).index@,
        ) by {
            grid@.lemma_index_slot(k);
        }
        assert forall|i: int, j: int| 0 <= i < j < cells.len() implies (#[trigger] cells[i]).index
            != (#[trigger] cells[j]).index by {
            grid@.lemma_index_slot(i);
            grid@.lemma_index_slot(j);
        }
        assert forall|p: (int, int)| grid@.contains(p) implies 0 <= #[trigger] grid@.slot(p)
            < cells.len() && cells[grid@.slot(p)].index@ == p by {
            grid@.lemma_slot_index(p);
        }
    }
    cells
}

} // verus!
