use pixel_canvas::raster::collect_circle_pixels;
use pixel_canvas::raster::collect_hex_pixels;
use pixel_canvas::raster::collect_line_pixels;
use pixel_canvas::raster::collect_rect_pixels;

#[test]
fn horizontal_line_fills_exactly_six_cells() {
    let mut pts: Vec<(i64, i64)> = Vec::new();
    collect_line_pixels(0, 0, 5, 0, &mut pts);
    assert_eq!(pts, vec![(0, 0), (1, 0), (2, 0), (3, 0), (4, 0), (5, 0)]);
}

#[test]
fn diagonal_line_steps_once_per_cell() {
    let mut pts: Vec<(i64, i64)> = Vec::new();
    collect_line_pixels(0, 0, 3, 3, &mut pts);
    assert_eq!(pts, vec![(0, 0), (1, 1), (2, 2), (3, 3)]);
}

#[test]
fn single_point_line_is_one_cell() {
    let mut pts: Vec<(i64, i64)> = Vec::new();
    collect_line_pixels(7, 7, 7, 7, &mut pts);
    assert_eq!(pts, vec![(7, 7)]);
}

#[test]
fn vertical_line_includes_both_endpoints() {
    let mut pts: Vec<(i64, i64)> = Vec::new();
    collect_line_pixels(2, 5, 2, 1, &mut pts);
    assert_eq!(pts, vec![(2, 5), (2, 4), (2, 3), (2, 2), (2, 1)]);
}

#[test]
fn line_collection_appends_to_existing_points() {
    let mut pts: Vec<(i64, i64)> = vec![(9, 9)];
    collect_line_pixels(0, 0, 1, 0, &mut pts);
    assert_eq!(pts, vec![(9, 9), (0, 0), (1, 0)]);
}

#[test]
fn rect_outline_covers_only_the_border() {
    let mut pts: Vec<(i64, i64)> = Vec::new();
    collect_rect_pixels(2, 2, 5, 5, &mut pts);
    for x in 2..=5 {
        assert!(pts.contains(&(x, 2)));
        assert!(pts.contains(&(x, 5)));
    }
    for y in 2..=5 {
        assert!(pts.contains(&(2, y)));
        assert!(pts.contains(&(5, y)));
    }
    assert!(!pts.contains(&(3, 3)));
    assert!(!pts.contains(&(4, 4)));
    assert!(!pts.contains(&(3, 4)));
    assert!(!pts.contains(&(4, 3)));
}

#[test]
fn rect_outline_normalizes_reversed_drags() {
    let mut a: Vec<(i64, i64)> = Vec::new();
    let mut b: Vec<(i64, i64)> = Vec::new();
    collect_rect_pixels(5, 5, 2, 2, &mut a);
    collect_rect_pixels(2, 2, 5, 5, &mut b);
    assert_eq!(a, b);
}

#[test]
fn circle_radius_comes_from_larger_axis_delta() {
    let mut pts: Vec<(i64, i64)> = Vec::new();
    collect_circle_pixels(10, 10, 10, 14, &mut pts);
    assert!(pts.contains(&(14, 10)));
    assert!(pts.contains(&(6, 10)));
    assert!(pts.contains(&(10, 14)));
    assert!(pts.contains(&(10, 6)));
    assert!(!pts.contains(&(10, 10)));
}

#[test]
fn circle_points_are_symmetric_across_both_axes() {
    let mut pts: Vec<(i64, i64)> = Vec::new();
    collect_circle_pixels(10, 10, 10, 14, &mut pts);
    for &(x, y) in &pts {
        assert!(pts.contains(&(20 - x, y)), "missing horizontal mirror of ({}, {})", x, y);
        assert!(pts.contains(&(x, 20 - y)), "missing vertical mirror of ({}, {})", x, y);
    }
}

#[test]
fn hexagon_is_six_lines_between_rounded_vertices() {
    // drag radius 8, so circumradius 4: vertex x offsets round(8/2) = 4
    // and round(8/4) = 2, vertical rise round(8 * sqrt(3) / 4) = 3.
    let mut hex: Vec<(i64, i64)> = Vec::new();
    collect_hex_pixels(10, 10, 18, 10, &mut hex);
    let mut lines: Vec<(i64, i64)> = Vec::new();
    collect_line_pixels(14, 10, 12, 13, &mut lines);
    collect_line_pixels(12, 13, 8, 13, &mut lines);
    collect_line_pixels(8, 13, 6, 10, &mut lines);
    collect_line_pixels(6, 10, 8, 7, &mut lines);
    collect_line_pixels(8, 7, 12, 7, &mut lines);
    collect_line_pixels(12, 7, 14, 10, &mut lines);
    assert_eq!(hex, lines);
}

#[test]
fn hexagon_of_zero_radius_collapses_to_the_center() {
    let mut pts: Vec<(i64, i64)> = Vec::new();
    collect_hex_pixels(10, 10, 10, 10, &mut pts);
    for &p in &pts {
        assert_eq!(p, (10, 10));
    }
    assert!(!pts.is_empty());
}
