use game_of_life::grid::{Grid, Index, Point};
use game_of_life::store::CellStore;
use game_of_life::visual::{render, visual_state, CellVisual, Sprite};

#[test]
fn hovering_wins_over_being_alive() {
    assert_eq!(visual_state(true, true), CellVisual::Hovered);
    assert_eq!(visual_state(true, false), CellVisual::Hovered);
    assert_eq!(visual_state(false, true), CellVisual::Alive);
    assert_eq!(visual_state(false, false), CellVisual::Idle);
}

#[test]
fn render_gives_one_sprite_per_cell_in_slot_order() {
    let mut store = CellStore::new(Grid::new(2, 3, 30, 2).unwrap(), 400);
    store.set_alive(Index::new(0, 1), true);
    store.set_alive(Index::new(1, 2), true);
    store.set_hovered(Index::new(1, 2), true);
    store.set_hovered(Index::new(1, 0), true);
    let sprites = render(&store);
    let expected = vec![
        Sprite { coord: Point::new(-32, -100), visual: CellVisual::Idle },
        Sprite { coord: Point::new(-32, -68), visual: CellVisual::Alive },
        Sprite { coord: Point::new(-32, -36), visual: CellVisual::Idle },
        Sprite { coord: Point::new(0, -100), visual: CellVisual::Hovered },
        Sprite { coord: Point::new(0, -68), visual: CellVisual::Idle },
        Sprite { coord: Point::new(0, -36), visual: CellVisual::Hovered },
    ];
    assert_eq!(sprites, expected);
}

#[test]
fn render_does_not_change_the_store() {
    let mut store = CellStore::new(Grid::new(2, 3, 30, 2).unwrap(), 400);
    store.set_alive(Index::new(0, 1), true);
    store.set_hovered(Index::new(1, 2), true);
    let before = store.cells().clone();
    let first = render(&store);
    let second = render(&store);
    assert_eq!(first, second);
    assert_eq!(store.cells(), &before);
}
