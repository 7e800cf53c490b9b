use game_of_life::grid::{Grid, Index, Point};
use game_of_life::store::CellStore;

fn store() -> CellStore {
    CellStore::new(Grid::new(3, 4, 30, 2).unwrap(), 400)
}

fn flags(store: &CellStore) -> Vec<(bool, bool)> {
    store.cells().iter().map(|c| (c.alive, c.hovered)).collect()
}

#[test]
fn fresh_store_is_dead_and_unhovered() {
    let store = store();
    assert_eq!(store.len(), 12);
    assert_eq!(store.viewport_height(), 400);
    assert_eq!(store.grid().rows(), 3);
    assert_eq!(store.grid().cols(), 4);
    assert_eq!(flags(&store), vec![(false, false); 12]);
    assert!(store.snapshot_alive().is_empty());
}

#[test]
fn cells_keep_index_and_coordinate() {
    let mut store = store();
    let before: Vec<(Index, Point)> = store.cells().iter().map(|c| (c.index, c.coord)).collect();
    store.set_alive(Index::new(1, 1), true);
    store.set_hovered(Index::new(2, 3), true);
    store.reset_all();
    store.set_alive(Index::new(0, 0), true);
    let after: Vec<(Index, Point)> = store.cells().iter().map(|c| (c.index, c.coord)).collect();
    assert_eq!(before, after);
    assert_eq!(before[5], (Index::new(1, 1), Point::new(32 - 48, 32 - 100)));
}

#[test]
fn set_alive_changes_one_cell() {
    let mut store = store();
    store.set_alive(Index::new(1, 2), true);
    let mut expected = vec![(false, false); 12];
    expected[6] = (true, false);
    assert_eq!(flags(&store), expected);
    store.set_alive(Index::new(1, 2), true);
    assert_eq!(flags(&store), expected);
    store.set_alive(Index::new(1, 2), false);
    assert_eq!(flags(&store), vec![(false, false); 12]);
}

#[test]
fn set_hovered_changes_one_cell() {
    let mut store = store();
    store.set_hovered(Index::new(2, 3), true);
    let mut expected = vec![(false, false); 12];
    expected[11] = (false, true);
    assert_eq!(flags(&store), expected);
    store.set_hovered(Index::new(2, 3), false);
    assert_eq!(flags(&store), vec![(false, false); 12]);
}

#[test]
fn positions_off_the_grid_are_ignored() {
    let mut store = store();
    for index in [
        Index::new(-1, 0),
        Index::new(0, -1),
        Index::new(3, 0),
        Index::new(0, 4),
        Index::new(i32::MAX, i32::MAX),
    ] {
        store.set_alive(index, true);
        store.set_hovered(index, true);
        assert_eq!(store.cell(index), None);
    }
    assert_eq!(flags(&store), vec![(false, false); 12]);
}

#[test]
fn cell_reads_one_cell() {
    let mut store = store();
    store.set_alive(Index::new(2, 1), true);
    store.set_hovered(Index::new(2, 1), true);
    let cell = store.cell(Index::new(2, 1)).unwrap();
    assert!(cell.alive);
    assert!(cell.hovered);
    assert_eq!(cell.index, Index::new(2, 1));
    assert_eq!(cell.coord, Point::new(64 - 48, 32 - 100));
    let other = store.cell(Index::new(1, 2)).unwrap();
    assert!(!other.alive);
    assert!(!other.hovered);
}

#[test]
fn snapshot_holds_exactly_the_live_cells() {
    let mut store = store();
    store.set_alive(Index::new(0, 0), true);
    store.set_alive(Index::new(2, 3), true);
    store.set_alive(Index::new(1, 1), true);
    store.set_alive(Index::new(1, 1), false);
    store.set_hovered(Index::new(1, 2), true);
    let snapshot = store.snapshot_alive();
    for x in -1..4 {
        for y in -1..5 {
            let expected = (x, y) == (0, 0) || (x, y) == (2, 3);
            assert_eq!(snapshot.contains(Index::new(x, y)), expected);
        }
    }
}

#[test]
fn snapshot_does_not_follow_later_changes() {
    let mut store = store();
    store.set_alive(Index::new(0, 0), true);
    let snapshot = store.snapshot_alive();
    store.set_alive(Index::new(0, 0), false);
    store.set_alive(Index::new(1, 1), true);
    assert!(snapshot.contains(Index::new(0, 0)));
    assert!(!snapshot.contains(Index::new(1, 1)));
}

#[test]
fn reset_all_clears_every_flag() {
    let mut store = store();
    store.set_alive(Index::new(0, 0), true);
    store.set_alive(Index::new(2, 3), true);
    store.set_hovered(Index::new(1, 1), true);
    store.reset_all();
    assert_eq!(flags(&store), vec![(false, false); 12]);
    assert!(store.snapshot_alive().is_empty());
}

#[test]
fn reset_all_twice_is_reset_all_once() {
    let mut once = store();
    once.set_alive(Index::new(1, 2), true);
    once.set_hovered(Index::new(0, 3), true);
    once.reset_all();
    let after_one: Vec<_> = once.cells().clone();
    once.reset_all();
    assert_eq!(once.cells(), &after_one);
    assert_eq!(flags(&once), vec![(false, false); 12]);
}
