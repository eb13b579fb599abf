use pixel_canvas::grid::Grid;
use pixel_canvas::grid::GRID_HEIGHT;
use pixel_canvas::grid::GRID_WIDTH;

fn snapshot_cells(g: &Grid) -> Vec<bool> {
    let mut v = Vec::new();
    for y in 0..GRID_HEIGHT as i64 {
        for x in 0..GRID_WIDTH as i64 {
            v.push(g.is_filled(x, y));
        }
    }
    v
}

#[test]
fn new_grid_is_empty() {
    let g = Grid::new();
    assert!(!g.is_filled(0, 0));
    assert!(!g.is_filled(319, 239));
    assert!(!g.is_filled(160, 120));
}

#[test]
fn set_cell_marks_cell() {
    let mut g = Grid::new();
    g.set_cell(7, 9);
    assert!(g.is_filled(7, 9));
    assert!(!g.is_filled(9, 7));
    assert!(!g.is_filled(6, 9));
}

#[test]
fn out_of_bounds_set_cell_never_panics_and_changes_nothing() {
    let mut g = Grid::new();
    g.set_cell(3, 4);
    g.set_cell(150, 200);
    let before = snapshot_cells(&g);
    g.set_cell(-1, 5);
    g.set_cell(5, -1);
    g.set_cell(320, 0);
    g.set_cell(0, 240);
    g.set_cell(i64::MAX, i64::MAX);
    g.set_cell(i64::MIN, 10);
    let after = snapshot_cells(&g);
    assert_eq!(before, after);
}

#[test]
fn out_of_bounds_reads_return_false() {
    let g = Grid::new();
    assert!(!g.is_filled(-1, 0));
    assert!(!g.is_filled(0, -1));
    assert!(!g.is_filled(320, 0));
    assert!(!g.is_filled(0, 240));
    assert!(!g.is_filled(i64::MIN, i64::MAX));
}

#[test]
fn stamp_with_pen_one_equals_single_set_cell() {
    let mut a = Grid::new();
    let mut b = Grid::new();
    a.stamp(12, 34, 1);
    b.set_cell(12, 34);
    assert_eq!(snapshot_cells(&a), snapshot_cells(&b));
}

#[test]
fn stamp_fills_block_right_and_down() {
    let mut g = Grid::new();
    g.stamp(10, 20, 3);
    for dy in 0..3 {
        for dx in 0..3 {
            assert!(g.is_filled(10 + dx, 20 + dy));
        }
    }
    assert!(!g.is_filled(9, 20));
    assert!(!g.is_filled(10, 19));
    assert!(!g.is_filled(13, 20));
    assert!(!g.is_filled(10, 23));
}

#[test]
fn stamp_is_clipped_at_the_edges() {
    let mut g = Grid::new();
    g.stamp(318, 238, 5);
    assert!(g.is_filled(318, 238));
    assert!(g.is_filled(319, 239));
    assert!(!g.is_filled(317, 238));
    g.stamp(-2, -2, 3);
    assert!(g.is_filled(0, 0));
    assert!(!g.is_filled(1, 1) || g.is_filled(0, 0));
    assert!(g.is_filled(0, 0) && !g.is_filled(2, 2));
}

#[test]
fn stamp_points_stamps_every_point() {
    let mut g = Grid::new();
    let pts = vec![(0i64, 0i64), (5, 5), (319, 239)];
    g.stamp_points(&pts, 2);
    assert!(g.is_filled(0, 0));
    assert!(g.is_filled(1, 1));
    assert!(g.is_filled(5, 5));
    assert!(g.is_filled(6, 6));
    assert!(g.is_filled(319, 239));
    assert!(!g.is_filled(3, 3));
}

#[test]
fn merge_takes_union_of_filled_cells() {
    let mut a = Grid::new();
    let mut b = Grid::new();
    a.set_cell(1, 1);
    b.set_cell(2, 2);
    a.merge(&b);
    assert!(a.is_filled(1, 1));
    assert!(a.is_filled(2, 2));
    assert!(!a.is_filled(3, 3));
    assert!(b.is_filled(2, 2));
    assert!(!b.is_filled(1, 1));
}

#[test]
fn duplicate_is_independent() {
    let mut a = Grid::new();
    a.set_cell(4, 4);
    let b = a.duplicate();
    a.set_cell(5, 5);
    assert!(b.is_filled(4, 4));
    assert!(!b.is_filled(5, 5));
    assert!(a.is_filled(5, 5));
}
