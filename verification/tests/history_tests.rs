use pixel_canvas::state::CanvasState;
use pixel_canvas::state::ShapeTool;
use pixel_canvas::strokes::Intent;

fn bitmaps(c: &CanvasState) -> Vec<Vec<bool>> {
    let mut all = Vec::new();
    for layer in &c.layers {
        let mut cells = Vec::new();
        for y in 0..240i64 {
            for x in 0..320i64 {
                cells.push(layer.grid.is_filled(x, y));
            }
        }
        all.push(cells);
    }
    all
}

fn pixel_stroke(c: &mut CanvasState, x: i64, y: i64) {
    c.pointer_tick(Some((x, y)), true, true, false);
    c.pointer_tick(Some((x, y)), false, false, true);
}

#[test]
fn undo_then_redo_restores_the_pre_undo_bitmap() {
    let mut c = CanvasState::new();
    pixel_stroke(&mut c, 1, 1);
    pixel_stroke(&mut c, 2, 2);
    pixel_stroke(&mut c, 3, 3);
    let before_undo = bitmaps(&c);
    c.undo();
    assert!(!c.layers[0].grid.is_filled(3, 3));
    assert!(c.layers[0].grid.is_filled(2, 2));
    c.redo();
    assert_eq!(bitmaps(&c), before_undo);
}

#[test]
fn undo_redo_round_trip_holds_after_any_stroke_sequence() {
    let mut c = CanvasState::new();
    c.apply_intent(Intent::SelectTool(ShapeTool::Line));
    c.pointer_tick(Some((0, 0)), true, true, false);
    c.pointer_tick(Some((5, 0)), false, true, false);
    c.pointer_tick(Some((5, 0)), false, false, true);
    pixel_stroke(&mut c, 7, 7);
    c.undo();
    let after_undo = bitmaps(&c);
    c.undo();
    c.redo();
    assert_eq!(bitmaps(&c), after_undo);
}

#[test]
fn a_new_stroke_clears_the_redo_stack() {
    let mut c = CanvasState::new();
    pixel_stroke(&mut c, 1, 1);
    pixel_stroke(&mut c, 2, 2);
    c.undo();
    assert!(!c.layers[0].grid.is_filled(2, 2));
    pixel_stroke(&mut c, 4, 4);
    let before_redo = bitmaps(&c);
    c.redo();
    assert_eq!(bitmaps(&c), before_redo);
    assert!(c.layers[0].grid.is_filled(4, 4));
    assert!(!c.layers[0].grid.is_filled(2, 2));
}

#[test]
fn undo_on_empty_history_is_a_noop() {
    let mut c = CanvasState::new();
    c.stamp_pixel(5, 5);
    let before = bitmaps(&c);
    c.undo();
    assert_eq!(bitmaps(&c), before);
}

#[test]
fn redo_on_empty_history_is_a_noop() {
    let mut c = CanvasState::new();
    pixel_stroke(&mut c, 5, 5);
    let before = bitmaps(&c);
    c.redo();
    assert_eq!(bitmaps(&c), before);
}

#[test]
fn snapshots_cover_every_layer() {
    let mut c = CanvasState::new();
    pixel_stroke(&mut c, 1, 1);
    c.apply_intent(Intent::AddLayer);
    c.select_layer(1);
    pixel_stroke(&mut c, 2, 2);
    assert!(c.layers[1].grid.is_filled(2, 2));
    c.undo();
    assert!(c.layers[0].grid.is_filled(1, 1));
    assert!(!c.layers[1].grid.is_filled(2, 2));
    c.redo();
    assert!(c.layers[1].grid.is_filled(2, 2));
}

#[test]
fn snapshots_are_deep_copies() {
    let mut c = CanvasState::new();
    pixel_stroke(&mut c, 1, 1);
    pixel_stroke(&mut c, 2, 2);
    c.undo();
    c.undo();
    assert!(!c.layers[0].grid.is_filled(1, 1));
    assert!(!c.layers[0].grid.is_filled(2, 2));
    c.redo();
    assert!(c.layers[0].grid.is_filled(1, 1));
    assert!(!c.layers[0].grid.is_filled(2, 2));
    c.redo();
    assert!(c.layers[0].grid.is_filled(2, 2));
}

#[test]
fn undo_applies_via_the_intent_reducer_too() {
    let mut c = CanvasState::new();
    pixel_stroke(&mut c, 6, 6);
    c.apply_intent(Intent::Undo);
    assert!(!c.layers[0].grid.is_filled(6, 6));
    c.apply_intent(Intent::Redo);
    assert!(c.layers[0].grid.is_filled(6, 6));
}
