//! The interaction mapper: which cell lies under the pointer, and what a
//! click does to it while the board is being edited.

use crate::grid::Point;
use crate::store::{CellStore, StoreView};
use vstd::prelude::*;

verus! {

/// Whether `pointer` lies in the square of side `cell_size` centred at
/// `center`, borders included.
pub open spec fn within_hit_box(center: (int, int), pointer: (int, int), cell_size: int) -> bool {
    &&& -cell_size <= 2 * (pointer.0 - center.0) <= cell_size
    &&& -cell_size <= 2 * (pointer.1 - center.1) <= cell_size
}

impl StoreView {
    /// Whether the cell at `p` lies under a pointer at `q`.
    pub open spec fn hit(self, p: (int, int), q: (int, int)) -> bool {
        self.grid.contains(p) && within_hit_box(
            self.grid.center(p, self.viewport_height as int),
            q,
            self.grid.cell_size as int,
        )
    }

    /// The cells under a pointer at `q`.
    pub open spec fn under_pointer(self, q: (int, int)) -> Set<(int, int)> {
        Set::new(|p: (int, int)| self.hit(p, q))
    }

    /// The cells under the pointer; none when the pointer is away.
    pub open spec fn pointed(self, pointer: Option<(int, int)>) -> Set<(int, int)> {
        match pointer {
            Some(q) => self.under_pointer(q),
            None => Set::empty(),
        }
    }

    /// The store after one frame of pointer input: exactly the cells under
    /// the pointer are hovered, and a click edge flips each of them between
    /// live and dead.
    pub open spec fn point(self, pointer: Option<(int, int)>, click_edge: bool) -> StoreView {
        let hovered = self.pointed(pointer);
        StoreView {
            hovered,
            alive: if click_edge {
                Set::new(|p: (int, int)| self.alive.contains(p) != hovered.contains(p))
            } else {
                self.alive
            },
            ..self
        }
    }
}

/// The mathematical value of a pointer position that may be absent.
pub open spec fn pointer_view(pointer: Option<Point>) -> Option<(int, int)> {
    match pointer {
        Some(q) => Some(q@),
        None => None,
    }
}

/// The size of the window the pointer is reported in.
#[derive(Debug, Clone, Copy, PartialEq, Eq, Structural)]
pub struct Viewport {
    pub width: u32,
    pub height: u32,
}

impl Viewport {
    pub fn new(width: u32, height: u32) -> (viewport: Self)
        ensures
            viewport.width == width,
            viewport.height == height,
    {
        Viewport { width, height }
    }

    /// Screen-space position of the window position `(x, y)`. Window
    /// positions start at the top left corner and grow downwards; screen
    /// space has its origin at the centre of the window and grows upwards.
    pub fn to_world(&self, x: i32, y: i32) -> (point: Point)
        ensures
            point@ == (x - self.width / 2, self.height / 2 - y),
    {
        Point { x: x as i64 - (self.width / 2) as i64, y: (self.height / 2) as i64 - y as i64 }
    }
}

/// Whether `pointer` lies in the square of side `cell_size` centred at
/// `center`, borders included.
pub fn hit_test(center: Point, pointer: Point, cell_size: u16) -> (hit: bool)
    ensures
        hit == within_hit_box(center@, pointer@, cell_size as int),
{
    let dx: i128 = 2 * (pointer.x as i128 - center.x as i128);
    let dy: i128 = 2 * (pointer.y as i128 - center.y as i128);
    let size: i128 = cell_size as i128;
    -size <= dx && dx <= size && -size <= dy && dy <= size
}

/// One frame of pointer input on the board being edited. Every cell under
/// `pointer` becomes hovered and every other cell unhovered; with
/// `click_edge`, each cell under the pointer flips between live and dead.
/// A pointer that has left the window is over no cell.
pub fn apply_pointer(store: &mut CellStore, pointer: Option<Point>, click_edge: bool)
    ensures
        final(store)@ == old(store)@.point(pointer_view(pointer), click_edge),
{
    let ghost before = store@;
    let ghost target = pointer_view(pointer);
    let ghost pointed = before.pointed(target);
    proof {
        use_type_invariant(&*store);
    }
    let cell_size = store.grid().cell_size();
    let n = store.len();
    let mut k: usize = 0;
    while k < n
        invariant
            k <= n,
            n == before.grid.cell_count(),
            cell_size == before.grid.cell_size,
            before.wf(),
            pointed == before.pointed(target),
            target == pointer_view(pointer),
            store@.grid == before.grid,
            store@.viewport_height == before.viewport_height,
            store@.wf(),
            forall|p: (int, int)|
                #![trigger store@.hovered.contains(p)]
                #![trigger store@.alive.contains(p)]
                before.grid.contains(p) && before.grid.slot(p) < k ==> {
                    &&& store@.hovered.contains(p) == pointed.contains(p)
                    &&& store@.alive.contains(p) == (before.alive.contains(p) != (click_edge
                        && pointed.contains(p)))
                },
            forall|p: (int, int)|
                #![trigger store@.hovered.contains(p)]
                #![trigger store@.alive.contains(p)]
                before.grid.contains(p) && before.grid.slot(p) >= k ==> {
                    &&& store@.hovered.contains(p) == before.hovered.contains(p)
                    &&& store@.alive.contains(p) == before.alive.contains(p)
                },
        decreases n - k,
    {
        let cell = store.cells()[k];
        let hit = match pointer {
            Some(q) => hit_test(cell.coord, q, cell_size),
            None => false,
        };
        proof {
            let g = before.grid;
            g.lemma_index_slot(k as int);
            assert forall|p: (int, int)| g.contains(p) && p != cell.index@ implies g.slot(p)
                != k by {
                g.lemma_slot_index(p);
            }
        }
        store.set_hovered(cell.index, hit);
        if hit && click_edge {
            store.set_alive(cell.index, !cell.alive);
        }
        proof {
            use_type_invariant(&*store);
        }
        k += 1;
    }
    proof {
        let after = store@;
        let expected = before.point(target, click_edge);
        assert forall|p: (int, int)| before.grid.contains(p) implies before.grid.slot(p) < n by {
            before.grid.lemma_slot_index(p);
        }
        assert(after.hovered =~= expected.hovered);
        assert(after.alive =~= expected.alive);
    }
}

/// Pointer input keeps a well-formed store well formed: only cells of the
/// grid are ever hovered or painted.
pub proof fn lemma_point_preserves_wf(
    store: StoreView,
    pointer: Option<(int, int)>,
    click_edge: bool,
)
    requires
        store.wf(),
    ensures
        store.point(pointer, click_edge).wf(),
{
}

/// A pointer exactly at the centre of a cell is over that cell, and over no
/// other as long as neighbouring centres are distinct points.
pub proof fn lemma_pointer_at_center(store: StoreView, p: (int, int))
    requires
        store.wf(),
        store.grid.contains(p),
        store.grid.pitch() > 0,
    ensures
        store.under_pointer(store.grid.center(p, store.viewport_height as int)) == set![p],
        store.point(
            Some(store.grid.center(p, store.viewport_height as int)),
            false,
        ).hovered == set![p],
{
    let g = store.grid;
    let q = g.center(p, store.viewport_height as int);
    assert forall|r: (int, int)| store.hit(r, q) implies r == p by {
        lemma_same_axis(r.0, p.0, g.pitch(), g.cell_size as int);
        lemma_same_axis(r.1, p.1, g.pitch(), g.cell_size as int);
    }
}

/// With a positive gap the squares of different cells share no point: no
/// pointer is over two cells at once.
pub proof fn lemma_at_most_one_under_pointer(
    store: StoreView,
    q: (int, int),
    a: (int, int),
    b: (int, int),
)
    requires
        store.wf(),
        store.grid.gap_size > 0,
        store.under_pointer(q).contains(a),
        store.under_pointer(q).contains(b),
    ensures
        a == b,
{
    let g = store.grid;
    lemma_close_centers(a.0, b.0, g.pitch(), g.cell_size as int);
    lemma_close_centers(a.1, b.1, g.pitch(), g.cell_size as int);
}

/// A click edge flips exactly the cells under the pointer and leaves every
/// other cell as it was; without an edge no cell changes between live and
/// dead, wherever the pointer is and however long the button is held.
pub proof fn lemma_click_toggles(store: StoreView, pointer: Option<(int, int)>, p: (int, int))
    ensures
        store.pointed(pointer).contains(p) ==> store.point(pointer, true).alive.contains(p)
            == !store.alive.contains(p),
        !store.pointed(pointer).contains(p) ==> store.point(pointer, true).alive.contains(p)
            == store.alive.contains(p),
        store.point(pointer, false).alive == store.alive,
        store.point(pointer, true).hovered == store.pointed(pointer),
        store.point(pointer, false).hovered == store.pointed(pointer),
{
}

/// Two cells along one axis whose centres are no more than half a cell
/// apart are the same cell.
proof fn lemma_same_axis(r: int, p: int, pitch: int, cell_size: int)
    requires
        pitch > 0,
        0 <= cell_size <= pitch,
        -cell_size <= 2 * (p * pitch - r * pitch) <= cell_size,
    ensures
        r == p,
{
    assert(p * pitch - r * pitch == (p - r) * pitch) by (nonlinear_arith);
    if p > r {
        assert((p - r) * pitch >= pitch) by (nonlinear_arith)
            requires
                p - r >= 1,
                pitch > 0,
        ;
    } else if p < r {
        assert((p - r) * pitch <= -pitch) by (nonlinear_arith)
            requires
                p - r <= -1,
                pitch > 0,
        ;
    }
}

/// Two cells along one axis whose centres are no more than a cell apart,
/// on a layout with a positive gap, are the same cell.
proof fn lemma_close_centers(r: int, p: int, pitch: int, cell_size: int)
    requires
        0 <= cell_size < pitch,
        -cell_size <= p * pitch - r * pitch <= cell_size,
    ensures
        r == p,
{
    assert(p * pitch - r * pitch == (p - r) * pitch) by (nonlinear_arith);
    if p > r {
        assert((p - r) * pitch >= pitch) by (nonlinear_arith)
            requires
                p - r >= 1,
                pitch > 0,
        ;
    } else if p < r {
        assert((p - r) * pitch <= -pitch) by (nonlinear_arith)
            requires
                p - r <= -1,
                pitch > 0,
        ;
    }
}

} // verus!
