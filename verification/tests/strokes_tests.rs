use pixel_canvas::state::CanvasState;
use pixel_canvas::state::ShapeTool;
use pixel_canvas::strokes::Intent;

#[test]
fn line_tool_drag_commits_on_release() {
    let mut c = CanvasState::new();
    c.apply_intent(Intent::SelectTool(ShapeTool::Line));
    c.pointer_tick(Some((0, 0)), true, true, false);
    assert!(!c.layers[0].grid.is_filled(0, 0));
    c.pointer_tick(Some((5, 0)), false, true, false);
    assert!(!c.layers[0].grid.is_filled(0, 0));
    c.pointer_tick(Some((5, 0)), false, false, true);
    for x in 0..=5 {
        assert!(c.layers[0].grid.is_filled(x, 0));
    }
    assert!(!c.layers[0].grid.is_filled(6, 0));
    assert!(!c.layers[0].grid.is_filled(0, 1));
}

#[test]
fn rect_tool_fills_only_the_border_of_the_bounding_box() {
    let mut c = CanvasState::new();
    c.apply_intent(Intent::SelectTool(ShapeTool::Rect));
    c.pointer_tick(Some((2, 2)), true, true, false);
    c.pointer_tick(Some((5, 5)), false, true, false);
    c.pointer_tick(Some((5, 5)), false, false, true);
    for k in 2..=5 {
        assert!(c.layers[0].grid.is_filled(k, 2));
        assert!(c.layers[0].grid.is_filled(k, 5));
        assert!(c.layers[0].grid.is_filled(2, k));
        assert!(c.layers[0].grid.is_filled(5, k));
    }
    assert!(!c.layers[0].grid.is_filled(3, 3));
    assert!(!c.layers[0].grid.is_filled(4, 4));
    assert!(!c.layers[0].grid.is_filled(3, 4));
    assert!(!c.layers[0].grid.is_filled(4, 3));
}

#[test]
fn committed_circle_is_symmetric_across_both_axes_through_the_center() {
    let mut c = CanvasState::new();
    c.apply_intent(Intent::SelectTool(ShapeTool::Circle));
    c.pointer_tick(Some((10, 10)), true, true, false);
    c.pointer_tick(Some((10, 14)), false, true, false);
    c.pointer_tick(Some((10, 14)), false, false, true);
    let g = &c.layers[0].grid;
    for y in 0..21i64 {
        for x in 0..21i64 {
            assert_eq!(g.is_filled(x, y), g.is_filled(20 - x, y), "asymmetry at ({}, {})", x, y);
            assert_eq!(g.is_filled(x, y), g.is_filled(x, 20 - y), "asymmetry at ({}, {})", x, y);
        }
    }
    assert!(g.is_filled(14, 10));
    assert!(g.is_filled(6, 10));
}

#[test]
fn pixel_tool_stamps_while_the_button_is_held() {
    let mut c = CanvasState::new();
    c.pointer_tick(Some((1, 1)), true, true, false);
    c.pointer_tick(Some((2, 1)), false, true, false);
    c.pointer_tick(Some((3, 1)), false, true, false);
    c.pointer_tick(None, false, false, true);
    assert!(c.layers[0].grid.is_filled(1, 1));
    assert!(c.layers[0].grid.is_filled(2, 1));
    assert!(c.layers[0].grid.is_filled(3, 1));
    assert!(!c.layers[0].grid.is_filled(4, 1));
}

#[test]
fn pointer_outside_the_canvas_draws_nothing() {
    let mut c = CanvasState::new();
    c.pointer_tick(None, true, true, false);
    c.pointer_tick(None, false, false, true);
    for y in 0..240i64 {
        for x in 0..320i64 {
            assert!(!c.layers[0].grid.is_filled(x, y));
        }
    }
}

#[test]
fn release_without_a_drag_end_commits_nothing() {
    let mut c = CanvasState::new();
    c.apply_intent(Intent::SelectTool(ShapeTool::Rect));
    c.pointer_tick(Some((5, 5)), false, false, true);
    assert!(!c.layers[0].grid.is_filled(5, 5));
    assert!(c.drag_start.is_none());
    assert!(c.drag_end.is_none());
}

#[test]
fn preview_points_match_the_committed_shape() {
    let mut c = CanvasState::new();
    c.apply_intent(Intent::SelectTool(ShapeTool::Hex));
    c.pointer_tick(Some((10, 10)), true, true, false);
    c.pointer_tick(Some((18, 10)), false, true, false);
    let preview = c.shape_preview_points();
    assert!(!preview.is_empty());
    c.pointer_tick(Some((18, 10)), false, false, true);
    for &(x, y) in &preview {
        assert!(c.layers[0].grid.is_filled(x, y), "preview cell ({}, {}) was not committed", x, y);
    }
    assert!(c.shape_preview_points().is_empty());
}

#[test]
fn preview_is_empty_without_a_complete_drag() {
    let mut c = CanvasState::new();
    c.apply_intent(Intent::SelectTool(ShapeTool::Line));
    assert!(c.shape_preview_points().is_empty());
}

#[test]
fn shape_commit_expands_points_with_the_pen() {
    let mut c = CanvasState::new();
    c.apply_intent(Intent::SelectTool(ShapeTool::Line));
    c.apply_intent(Intent::PenIncrease);
    c.pointer_tick(Some((0, 0)), true, true, false);
    c.pointer_tick(Some((3, 0)), false, true, false);
    c.pointer_tick(Some((3, 0)), false, false, true);
    for x in 0..=4 {
        assert!(c.layers[0].grid.is_filled(x, 0));
        assert!(c.layers[0].grid.is_filled(x, 1));
    }
    assert!(!c.layers[0].grid.is_filled(0, 2));
}

#[test]
fn switching_to_the_pixel_tool_cancels_a_drag() {
    let mut c = CanvasState::new();
    c.apply_intent(Intent::SelectTool(ShapeTool::Line));
    c.pointer_tick(Some((0, 0)), true, true, false);
    c.pointer_tick(Some((4, 4)), false, true, false);
    assert!(c.drag_start.is_some());
    c.apply_intent(Intent::SelectTool(ShapeTool::Pixel));
    c.pointer_tick(None, false, false, false);
    assert!(c.drag_start.is_none());
    assert!(c.drag_end.is_none());
}

#[test]
fn direct_shape_commits_match_the_collectors() {
    let mut c = CanvasState::new();
    c.draw_line_on_grid(0, 0, 5, 0);
    let mut pts: Vec<(i64, i64)> = Vec::new();
    pixel_canvas::raster::collect_line_pixels(0, 0, 5, 0, &mut pts);
    for &(x, y) in &pts {
        assert!(c.layers[0].grid.is_filled(x, y));
    }
}

#[test]
fn cancelling_a_drag_commits_nothing() {
    let mut c = CanvasState::new();
    c.apply_intent(Intent::SelectTool(ShapeTool::Rect));
    c.pointer_tick(Some((2, 2)), true, true, false);
    c.pointer_tick(Some((5, 5)), false, true, false);
    c.cancel_drag();
    assert!(c.drag_start.is_none());
    assert!(c.drag_end.is_none());
    c.pointer_tick(Some((5, 5)), false, false, true);
    assert!(!c.layers[0].grid.is_filled(2, 2));
    assert!(!c.layers[0].grid.is_filled(5, 5));
}
