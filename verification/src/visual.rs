//! Visual-state derivation: what the renderer should show for each cell.
//! A read-only projection of the cell store.

use crate::grid::{Cell, Point};
use crate::store::{CellStore, StoreView};
use vstd::prelude::*;

verus! {

/// How a cell is drawn. Hovering wins over being live.
#[derive(Debug, Clone, Copy, PartialEq, Eq, Structural, Hash)]
pub enum CellVisual {
    Hovered,
    Alive,
    Idle,
}

/// A cell's square as the renderer needs it: where its centre is and how to
/// draw it.
#[derive(Debug, Clone, Copy, PartialEq, Eq, Structural)]
pub struct Sprite {
    pub coord: Point,
    pub visual: CellVisual,
}

/// The visual category of a cell with the given flags.
pub open spec fn visual_of(hovered: bool, alive: bool) -> CellVisual {
    if hovered {
        CellVisual::Hovered
    } else if alive {
        CellVisual::Alive
    } else {
        CellVisual::Idle
    }
}

/// The mathematical value of a [`Sprite`].
pub struct SpriteView {
    pub coord: (int, int),
    pub visual: CellVisual,
}

impl View for Sprite {
    type V = SpriteView;

    open spec fn view(&self) -> SpriteView {
        SpriteView { coord: self.coord@, visual: self.visual }
    }
}

impl StoreView {
    /// What the renderer is told about the cell at `p`.
    pub open spec fn sprite(self, p: (int, int)) -> SpriteView {
        SpriteView {
            coord: self.grid.center(p, self.viewport_height as int),
            visual: visual_of(self.hovered.contains(p), self.alive.contains(p)),
        }
    }
}

/// The visual category of a cell with the given flags.
pub fn visual_state(hovered: bool, alive: bool) -> (visual: CellVisual)
    ensures
        visual == visual_of(hovered, alive),
{
    if hovered {
        CellVisual::Hovered
    } else if alive {
        CellVisual::Alive
    } else {
        CellVisual::Idle
    }
}

/// One sprite per cell, in slot order. The store is not changed.
pub fn render(store: &CellStore) -> (sprites: Vec<Sprite>)
    ensures
        sprites.len() == store@.grid.cell_count(),
        forall|k: int|
            0 <= k < sprites.len()
                ==> (#[trigger] sprites[k])@ == store@.sprite(store@.grid.index_at(k)),
{
    let cells = store.cells();
    let mut sprites: Vec<Sprite> = Vec::new();
    let mut k: usize = 0;
    while k < cells.len()
        invariant
            k <= cells.len(),
            sprites.len() == k,
            cells.len() == store@.grid.cell_count(),
            forall|j: int|
                0 <= j < cells.len()
                    ==> (#[trigger] cells[j])@ == store@.cell(store@.grid.index_at(j)),
            forall|j: int|
                0 <= j < k ==> (#[trigger] sprites[j])@ == store@.sprite(store@.grid.index_at(j)),
        decreases cells.len() - k,
    {
        let cell: Cell = cells[k];
        sprites.push(Sprite { coord: cell.coord, visual: visual_state(cell.hovered, cell.alive) });
        k += 1;
    }
    sprites
}

} // verus!
