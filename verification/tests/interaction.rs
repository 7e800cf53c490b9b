use game_of_life::grid::{Grid, Index, Point};
use game_of_life::interaction::{apply_pointer, hit_test, Viewport};
use game_of_life::store::CellStore;

fn store() -> CellStore {
    CellStore::new(Grid::default(), 720)
}

fn hovered(store: &CellStore) -> Vec<(i32, i32)> {
    store
        .cells()
        .iter()
        .filter(|c| c.hovered)
        .map(|c| (c.index.x, c.index.y))
        .collect()
}

fn alive(store: &CellStore) -> Vec<(i32, i32)> {
    store
        .cells()
        .iter()
        .filter(|c| c.alive)
        .map(|c| (c.index.x, c.index.y))
        .collect()
}

#[test]
fn pointer_at_a_center_hovers_that_cell_only() {
    let mut store = store();
    for index in [Index::new(0, 0), Index::new(7, 12), Index::new(19, 19)] {
        let center = store.cell(index).unwrap().coord;
        apply_pointer(&mut store, Some(center), false);
        assert_eq!(hovered(&store), vec![(index.x, index.y)]);
        assert!(alive(&store).is_empty());
    }
}

#[test]
fn hit_box_includes_its_border() {
    let center = Point::new(-64, 44);
    for (dx, dy, expected) in [
        (0, 0, true),
        (15, 0, true),
        (-15, 0, true),
        (0, 15, true),
        (0, -15, true),
        (15, 15, true),
        (-15, -15, true),
        (16, 0, false),
        (-16, 0, false),
        (0, 16, false),
        (0, -16, false),
        (16, 16, false),
        (15, -16, false),
    ] {
        let pointer = Point::new(center.x + dx, center.y + dy);
        assert_eq!(hit_test(center, pointer, 30), expected);
    }
}

#[test]
fn odd_cell_size_has_a_half_unit_border() {
    // Half of 31 is fifteen and a half: fifteen away is inside, sixteen is
    // not.
    let center = Point::new(0, 0);
    assert!(hit_test(center, Point::new(15, -15), 31));
    assert!(!hit_test(center, Point::new(16, 0), 31));
    assert!(!hit_test(center, Point::new(0, -16), 31));
    // A cell of size zero is hit at its centre only.
    assert!(hit_test(center, Point::new(0, 0), 0));
    assert!(!hit_test(center, Point::new(1, 0), 0));
}

#[test]
fn hit_test_takes_any_point() {
    assert!(!hit_test(
        Point::new(i64::MIN, i64::MIN),
        Point::new(i64::MAX, i64::MAX),
        u16::MAX
    ));
    assert!(!hit_test(
        Point::new(i64::MAX, 0),
        Point::new(i64::MIN, 0),
        u16::MAX
    ));
    assert!(hit_test(
        Point::new(i64::MAX, i64::MIN),
        Point::new(i64::MAX, i64::MIN),
        0
    ));
}

#[test]
fn pointer_in_the_gap_hovers_nothing() {
    let mut store = store();
    store.set_hovered(Index::new(3, 3), true);
    // Centres are 32 apart and squares reach 15 from their centre: 16 from
    // a centre lies between two squares.
    let center = store.cell(Index::new(5, 5)).unwrap().coord;
    apply_pointer(&mut store, Some(Point::new(center.x + 16, center.y)), true);
    assert!(hovered(&store).is_empty());
    assert!(alive(&store).is_empty());
}

#[test]
fn pointer_on_the_border_hovers_the_cell() {
    let mut store = store();
    let center = store.cell(Index::new(5, 5)).unwrap().coord;
    apply_pointer(&mut store, Some(Point::new(center.x + 15, center.y - 15)), false);
    assert_eq!(hovered(&store), vec![(5, 5)]);
    apply_pointer(&mut store, Some(Point::new(center.x + 17, center.y)), false);
    assert_eq!(hovered(&store), vec![(6, 5)]);
}

#[test]
fn click_edge_toggles_the_hovered_cell() {
    let mut store = store();
    let center = store.cell(Index::new(4, 9)).unwrap().coord;
    apply_pointer(&mut store, Some(center), true);
    assert_eq!(alive(&store), vec![(4, 9)]);
    assert_eq!(hovered(&store), vec![(4, 9)]);
    apply_pointer(&mut store, Some(center), true);
    assert!(alive(&store).is_empty());
    assert_eq!(hovered(&store), vec![(4, 9)]);
}

#[test]
fn held_button_does_not_toggle_again() {
    let mut store = store();
    let center = store.cell(Index::new(4, 9)).unwrap().coord;
    apply_pointer(&mut store, Some(center), true);
    for _ in 0..10 {
        apply_pointer(&mut store, Some(center), false);
        assert_eq!(alive(&store), vec![(4, 9)]);
    }
    // Dragging the held button over other cells paints nothing either.
    let other = store.cell(Index::new(5, 9)).unwrap().coord;
    apply_pointer(&mut store, Some(other), false);
    assert_eq!(alive(&store), vec![(4, 9)]);
    assert_eq!(hovered(&store), vec![(5, 9)]);
}

#[test]
fn click_leaves_other_cells_alone() {
    let mut store = store();
    store.set_alive(Index::new(0, 0), true);
    store.set_alive(Index::new(19, 19), true);
    let center = store.cell(Index::new(10, 10)).unwrap().coord;
    apply_pointer(&mut store, Some(center), true);
    assert_eq!(alive(&store), vec![(0, 0), (10, 10), (19, 19)]);
}

#[test]
fn pointer_that_left_the_window_hovers_nothing() {
    let mut store = store();
    let center = store.cell(Index::new(4, 9)).unwrap().coord;
    apply_pointer(&mut store, Some(center), true);
    apply_pointer(&mut store, None, false);
    assert!(hovered(&store).is_empty());
    assert_eq!(alive(&store), vec![(4, 9)]);
    apply_pointer(&mut store, None, true);
    assert!(hovered(&store).is_empty());
    assert_eq!(alive(&store), vec![(4, 9)]);
}

#[test]
fn pointer_far_away_hovers_nothing() {
    let mut store = store();
    apply_pointer(&mut store, Some(Point::new(i64::MAX, i64::MIN)), true);
    assert!(hovered(&store).is_empty());
    assert!(alive(&store).is_empty());
}

#[test]
fn without_a_gap_a_border_point_is_over_both_neighbours() {
    let mut store = CellStore::new(Grid::new(2, 2, 30, 0).unwrap(), 0);
    let left = store.cell(Index::new(0, 0)).unwrap().coord;
    apply_pointer(&mut store, Some(Point::new(left.x + 15, left.y)), true);
    assert_eq!(hovered(&store), vec![(0, 0), (1, 0)]);
    assert_eq!(alive(&store), vec![(0, 0), (1, 0)]);
}

#[test]
fn window_positions_map_to_screen_space() {
    let viewport = Viewport::new(1280, 720);
    assert_eq!(viewport.to_world(0, 0), Point::new(-640, 360));
    assert_eq!(viewport.to_world(640, 360), Point::new(0, 0));
    assert_eq!(viewport.to_world(1280, 720), Point::new(640, -360));
    assert_eq!(viewport.to_world(320, 540), Point::new(-320, -180));
    let odd = Viewport::new(1281, 721);
    assert_eq!(odd.to_world(0, 0), Point::new(-640, 360));
    let huge = Viewport::new(u32::MAX, u32::MAX);
    assert_eq!(
        huge.to_world(i32::MIN, i32::MAX),
        Point::new(
            i32::MIN as i64 - (u32::MAX / 2) as i64,
            (u32::MAX / 2) as i64 - i32::MAX as i64
        )
    );
}

#[test]
fn window_position_over_a_cell_hovers_it() {
    // The first cell of the default board is centred at (-320, -180),
    // which a 1280 by 720 window shows at (320, 540).
    let viewport = Viewport::new(1280, 720);
    let mut store = store();
    apply_pointer(&mut store, Some(viewport.to_world(320, 540)), true);
    assert_eq!(alive(&store), vec![(0, 0)]);
}
