use pixel_canvas::export::ExportRect;
use pixel_canvas::export::export_picture;
use pixel_canvas::export::export_rects;
use pixel_canvas::export::render_export;
use pixel_canvas::grid::Grid;
use pixel_canvas::state::CanvasState;
use pixel_canvas::strokes::Intent;

const HEADER: &str = "fn draw_exported_picture(x_offset: f32, y_offset: f32) {\n";

fn coverage_count(rects: &[ExportRect], x: usize, y: usize) -> usize {
    rects
        .iter()
        .filter(|r| r.x <= x && x < r.x + r.w && r.y <= y && y < r.y + r.h)
        .count()
}

#[test]
fn empty_bitmap_exports_zero_rectangles() {
    let g = Grid::new();
    let rects = export_rects(&g);
    assert!(rects.is_empty());
    let text = render_export(&rects);
    assert_eq!(text, format!("{}}}\n", HEADER));
}

#[test]
fn full_bitmap_exports_exactly_one_rectangle() {
    let mut g = Grid::new();
    g.stamp(0, 0, 320);
    let rects = export_rects(&g);
    assert_eq!(rects.len(), 1);
    let r = rects[0];
    assert_eq!((r.x, r.y, r.w, r.h), (0, 0, 320, 240));
}

#[test]
fn rectangles_partition_the_filled_set_exactly() {
    let mut g = Grid::new();
    // an L-shaped region plus a detached cell
    g.stamp(1, 1, 3);
    g.stamp(1, 4, 2);
    g.set_cell(10, 10);
    let rects = export_rects(&g);
    for y in 0..240usize {
        for x in 0..320usize {
            let covered = coverage_count(&rects, x, y);
            if g.is_filled(x as i64, y as i64) {
                assert_eq!(covered, 1, "cell ({}, {}) covered {} times", x, y, covered);
            } else {
                assert_eq!(covered, 0, "empty cell ({}, {}) covered", x, y);
            }
        }
    }
}

#[test]
fn scan_is_row_major_and_grows_width_first() {
    let mut g = Grid::new();
    // two columns of height 2 separated by a gap, plus a wide row below
    g.set_cell(1, 1);
    g.set_cell(2, 1);
    g.set_cell(1, 2);
    g.set_cell(2, 2);
    let rects = export_rects(&g);
    assert_eq!(rects.len(), 1);
    assert_eq!((rects[0].x, rects[0].y, rects[0].w, rects[0].h), (1, 1, 2, 2));
}

#[test]
fn exported_text_scales_by_eight_with_one_decimal_digit() {
    let mut g = Grid::new();
    g.set_cell(1, 1);
    g.set_cell(2, 1);
    g.set_cell(1, 2);
    g.set_cell(2, 2);
    let text = export_picture(&g);
    let expected = format!(
        "{}    draw_rectangle(x_offset + 8.0, y_offset + 8.0, 16.0, 16.0, BLUE);\n}}\n",
        HEADER
    );
    assert_eq!(text, expected);
}

#[test]
fn full_bitmap_text_names_the_whole_canvas() {
    let mut g = Grid::new();
    g.stamp(0, 0, 320);
    let text = export_picture(&g);
    let expected = format!(
        "{}    draw_rectangle(x_offset + 0.0, y_offset + 0.0, 2560.0, 1920.0, BLUE);\n}}\n",
        HEADER
    );
    assert_eq!(text, expected);
}

#[test]
fn export_picture_composes_decomposition_and_rendering() {
    let mut g = Grid::new();
    g.stamp(3, 3, 2);
    g.set_cell(30, 7);
    assert_eq!(export_picture(&g), render_export(&export_rects(&g)));
}

#[test]
fn flatten_composites_only_visible_layers() {
    let mut c = CanvasState::new();
    c.stamp_pixel(1, 1);
    c.apply_intent(Intent::AddLayer);
    c.select_layer(1);
    c.stamp_pixel(2, 2);
    let both = c.flatten();
    assert!(both.is_filled(1, 1));
    assert!(both.is_filled(2, 2));
    c.toggle_visibility(0);
    let one = c.flatten();
    assert!(!one.is_filled(1, 1));
    assert!(one.is_filled(2, 2));
}

#[test]
fn hidden_layers_are_excluded_from_export() {
    let mut c = CanvasState::new();
    c.stamp_pixel(0, 0);
    c.toggle_visibility(0);
    let rects = export_rects(&c.flatten());
    assert!(rects.is_empty());
}
