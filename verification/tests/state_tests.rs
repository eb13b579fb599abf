use pixel_canvas::state::CanvasState;
use pixel_canvas::state::ShapeTool;
use pixel_canvas::strokes::Intent;

#[test]
fn new_canvas_has_one_empty_visible_layer() {
    let c = CanvasState::new();
    assert_eq!(c.layers.len(), 1);
    assert!(c.layers[0].visible);
    assert_eq!(c.layers[0].name, "Layer 1");
    assert_eq!(c.selected_layer, 0);
    assert_eq!(c.pen_size, 1);
    assert!(matches!(c.shape_tool, ShapeTool::Pixel));
    assert!(!c.layers[0].grid.is_filled(0, 0));
}

#[test]
fn deleting_the_last_layer_leaves_it_present_and_unchanged() {
    let mut c = CanvasState::new();
    c.stamp_pixel(5, 5);
    c.remove_layer(0);
    assert_eq!(c.layers.len(), 1);
    assert!(c.layers[0].grid.is_filled(5, 5));
    assert_eq!(c.layers[0].name, "Layer 1");
}

#[test]
fn removing_a_layer_clamps_the_selection() {
    let mut c = CanvasState::new();
    c.apply_intent(Intent::AddLayer);
    c.apply_intent(Intent::AddLayer);
    c.select_layer(2);
    c.remove_layer(2);
    assert_eq!(c.layers.len(), 2);
    assert_eq!(c.selected_layer, 1);
    c.remove_layer(0);
    assert_eq!(c.layers.len(), 1);
    assert_eq!(c.selected_layer, 0);
}

#[test]
fn out_of_range_layer_requests_are_noops() {
    let mut c = CanvasState::new();
    c.apply_intent(Intent::AddLayer);
    c.select_layer(7);
    assert_eq!(c.selected_layer, 0);
    c.remove_layer(7);
    assert_eq!(c.layers.len(), 2);
    c.toggle_visibility(7);
    assert!(c.layers[0].visible && c.layers[1].visible);
}

#[test]
fn added_layers_are_numbered_after_the_count() {
    let mut c = CanvasState::new();
    c.apply_intent(Intent::AddLayer);
    assert_eq!(c.layers.len(), 2);
    assert_eq!(c.layers[1].name, "Layer 2");
    c.apply_intent(Intent::AddLayer);
    assert_eq!(c.layers[2].name, "Layer 3");
    assert!(c.layers[2].visible);
}

#[test]
fn toggle_visibility_flips_only_the_flag() {
    let mut c = CanvasState::new();
    c.stamp_pixel(3, 3);
    c.toggle_visibility(0);
    assert!(!c.layers[0].visible);
    assert!(c.layers[0].grid.is_filled(3, 3));
    c.toggle_visibility(0);
    assert!(c.layers[0].visible);
}

#[test]
fn pen_size_never_goes_below_one() {
    let mut c = CanvasState::new();
    assert_eq!(c.pen_size, 1);
    c.apply_intent(Intent::PenDecrease);
    assert_eq!(c.pen_size, 1);
    c.apply_intent(Intent::PenIncrease);
    assert_eq!(c.pen_size, 2);
    c.apply_intent(Intent::PenDecrease);
    c.apply_intent(Intent::PenDecrease);
    assert_eq!(c.pen_size, 1);
}

#[test]
fn tool_selection_switches_the_active_tool() {
    let mut c = CanvasState::new();
    c.apply_intent(Intent::SelectTool(ShapeTool::Circle));
    assert!(matches!(c.shape_tool, ShapeTool::Circle));
    c.apply_intent(Intent::SelectTool(ShapeTool::Pixel));
    assert!(matches!(c.shape_tool, ShapeTool::Pixel));
}

#[test]
fn drawing_targets_only_the_selected_layer() {
    let mut c = CanvasState::new();
    c.apply_intent(Intent::AddLayer);
    c.select_layer(1);
    c.stamp_pixel(9, 9);
    assert!(!c.layers[0].grid.is_filled(9, 9));
    assert!(c.layers[1].grid.is_filled(9, 9));
}

#[test]
fn pen_size_expands_pixel_stamps() {
    let mut c = CanvasState::new();
    c.apply_intent(Intent::PenIncrease);
    c.apply_intent(Intent::PenIncrease);
    c.stamp_pixel(10, 10);
    for dy in 0..3 {
        for dx in 0..3 {
            assert!(c.layers[0].grid.is_filled(10 + dx, 10 + dy));
        }
    }
    assert!(!c.layers[0].grid.is_filled(13, 10));
}
