use game_of_life::grid::{
    create_grid, Grid, Index, Point, DEFAULT_CELL_SIZE, DEFAULT_COLS, DEFAULT_GAP_SIZE,
    DEFAULT_ROWS,
};

#[test]
fn default_grid_has_four_hundred_cells() {
    let grid = Grid::default();
    let cells = create_grid(&grid, 720);
    assert_eq!(cells.len(), 400);
    assert_eq!(grid.cell_count(), 400);
}

#[test]
fn default_grid_uses_the_default_constants() {
    let grid = Grid::default();
    assert_eq!(grid.rows(), 20);
    assert_eq!(grid.cols(), 20);
    assert_eq!(grid.cell_size(), 30);
    assert_eq!(grid.gap_size(), 2);
    assert_eq!(
        (DEFAULT_ROWS, DEFAULT_COLS, DEFAULT_CELL_SIZE, DEFAULT_GAP_SIZE),
        (20, 20, 30, 2)
    );
}

#[test]
fn zero_dimension_is_refused() {
    assert!(Grid::new(0, 20, 30, 2).is_none());
    assert!(Grid::new(20, 0, 30, 2).is_none());
    assert!(Grid::new(0, 0, 30, 2).is_none());
    assert!(Grid::new(1, 1, 0, 0).is_some());
}

#[test]
fn new_keeps_what_it_is_given() {
    let grid = Grid::new(3, 5, 7, 11).unwrap();
    assert_eq!(grid.rows(), 3);
    assert_eq!(grid.cols(), 5);
    assert_eq!(grid.cell_size(), 7);
    assert_eq!(grid.gap_size(), 11);
    assert_eq!(grid.cell_count(), 15);
}

#[test]
fn centers_follow_the_layout_formula() {
    let grid = Grid::default();
    assert_eq!(grid.center(Index::new(0, 0), 720), Point::new(-320, -180));
    assert_eq!(grid.center(Index::new(10, 5), 720), Point::new(0, -20));
    assert_eq!(grid.center(Index::new(19, 19), 720), Point::new(288, 428));
    assert_eq!(grid.center(Index::new(1, 0), 720), Point::new(-288, -180));
    assert_eq!(grid.center(Index::new(0, 1), 720), Point::new(-320, -148));
}

#[test]
fn halves_and_quarters_round_towards_zero() {
    let grid = Grid::new(3, 3, 4, 1).unwrap();
    // Three rows of pitch five are fifteen wide: half of that is seven.
    assert_eq!(grid.center(Index::new(0, 0), 0), Point::new(-7, 0));
    assert_eq!(grid.center(Index::new(2, 2), 0), Point::new(3, 10));
    // A quarter of 722 and of 723 is 180.
    assert_eq!(grid.center(Index::new(0, 0), 722), Point::new(-7, -180));
    assert_eq!(grid.center(Index::new(0, 0), 723), Point::new(-7, -180));
    assert_eq!(grid.center(Index::new(0, 0), 724), Point::new(-7, -181));
}

#[test]
fn center_is_defined_off_the_grid_too() {
    let grid = Grid::default();
    assert_eq!(grid.center(Index::new(-1, -1), 720), Point::new(-352, -212));
    assert_eq!(
        grid.center(Index::new(i32::MAX, i32::MIN), u32::MAX),
        Point::new(
            i32::MAX as i64 * 32 - 320,
            i32::MIN as i64 * 32 - (u32::MAX / 4) as i64
        )
    );
}

#[test]
fn largest_grid_is_laid_out_without_overflow() {
    let grid = Grid::new(u16::MAX, 1, u16::MAX, u16::MAX).unwrap();
    assert_eq!(grid.cell_count(), 65535);
    let pitch: i64 = 2 * 65535;
    assert_eq!(
        grid.center(Index::new(65534, 0), 0),
        Point::new(65534 * pitch - (65535 * pitch) / 2, 0)
    );
}

#[test]
fn cells_are_laid_out_rows_first() {
    let grid = Grid::new(3, 5, 30, 2).unwrap();
    let cells = create_grid(&grid, 400);
    assert_eq!(cells.len(), 15);
    for (k, cell) in cells.iter().enumerate() {
        assert_eq!(cell.index, Index::new((k / 5) as i32, (k % 5) as i32));
        assert_eq!(cell.coord, grid.center(cell.index, 400));
        assert!(!cell.alive);
        assert!(!cell.hovered);
    }
    assert_eq!(cells[7].index, Index::new(1, 2));
    assert_eq!(cells[7].coord, Point::new(32 - 48, 64 - 100));
}

#[test]
fn indices_are_distinct_and_cover_the_grid() {
    let grid = Grid::new(4, 6, 30, 2).unwrap();
    let cells = create_grid(&grid, 0);
    assert_eq!(cells.len(), 24);
    for i in 0..cells.len() {
        for j in (i + 1)..cells.len() {
            assert_ne!(cells[i].index, cells[j].index);
        }
    }
    for x in 0..4 {
        for y in 0..6 {
            let wanted = Index::new(x, y);
            assert_eq!(cells.iter().filter(|c| c.index == wanted).count(), 1);
        }
    }
    for cell in &cells {
        assert!(grid.contains(cell.index));
    }
}

#[test]
fn slot_and_index_at_are_inverse() {
    let grid = Grid::new(4, 6, 30, 2).unwrap();
    for k in 0..24 {
        let index = grid.index_at(k).unwrap();
        assert_eq!(grid.slot(index), Some(k));
    }
    assert_eq!(grid.slot(Index::new(2, 3)), Some(15));
    assert_eq!(grid.index_at(15), Some(Index::new(2, 3)));
    assert_eq!(grid.index_at(24), None);
    assert_eq!(grid.index_at(usize::MAX), None);
}

#[test]
fn positions_off_the_grid_have_no_slot() {
    let grid = Grid::new(4, 6, 30, 2).unwrap();
    assert_eq!(grid.slot(Index::new(-1, 0)), None);
    assert_eq!(grid.slot(Index::new(0, -1)), None);
    assert_eq!(grid.slot(Index::new(4, 0)), None);
    assert_eq!(grid.slot(Index::new(0, 6)), None);
    assert_eq!(grid.slot(Index::new(i32::MIN, i32::MAX)), None);
    assert!(!grid.contains(Index::new(4, 5)));
    assert!(grid.contains(Index::new(3, 5)));
    assert!(grid.contains(Index::new(0, 0)));
}

#[test]
fn index_new_keeps_its_arguments() {
    let index = Index::new(-3, 9);
    assert_eq!((index.x, index.y), (-3, 9));
    let point = Point::new(-4, 8);
    assert_eq!((point.x, point.y), (-4, 8));
}
