//! Committing strokes: rasterized points are pen-stamped into the
//! selected layer, and the per-tick pointer protocol that drives the
//! tools.
//!
//! Hit-testing and input polling live outside the engine; they hand
//! in plain values (a pointer cell, button edges, discrete intents)
//! and the functions here decide everything that follows.

use vstd::prelude::*;
use vstd::pervasive::VecAdditionalExecFns;
use crate::grid::Grid;
use crate::grid::in_bounds;
use crate::grid::pts_view;
use crate::grid::stamp_covers;
use crate::raster::circle_points;
use crate::raster::collect_circle_pixels;
use crate::raster::collect_hex_pixels;
use crate::raster::collect_line_pixels;
use crate::raster::collect_rect_pixels;
use crate::raster::hex_points;
use crate::raster::line_points;
use crate::raster::rect_points;
use crate::state::CanvasState;
use crate::state::Layer;
use crate::state::ShapeTool;
use crate::state::pt_ok;

verus! {

/// The point set a shape tool rasterizes for a drag from `(sx, sy)`
/// to `(ex, ey)`.  The pixel tool is not drag-based and contributes
/// nothing here.
pub open spec fn shape_points(tool: ShapeTool, sx: int, sy: int, ex: int, ey: int) -> Seq<
    (int, int),
> {
    match tool {
        ShapeTool::Pixel => Seq::empty(),
        ShapeTool::Line => line_points(sx, sy, ex, ey),
        ShapeTool::Rect => rect_points(sx, sy, ex, ey),
        ShapeTool::Circle => circle_points(sx, sy, ex, ey),
        ShapeTool::Hex => hex_points(sx, sy, ex, ey),
    }
}

/// Relates a canvas before and after a stroke commit: the selected
/// layer gains exactly the cells the pen-stamped point set covers,
/// every other layer and every other part of the state is untouched.
/// Drag anchors are not constrained here; the callers state them.
pub open spec fn stroke_applied(pre: CanvasState, post: CanvasState, pts: Seq<(int, int)>) -> bool {
    let sel = pre.selected_layer as int;
    &&& post.layers@.len() == pre.layers@.len()
    &&& forall|i: int, j: int|
        post.layers@[pre.selected_layer as int].grid.filled(i, j) == (
        pre.layers@[pre.selected_layer as int].grid.filled(i, j) || (in_bounds(i, j)
            && stamp_covers(pts, pre.pen_size as int, i, j)))
    &&& forall|k: int|
        0 <= k < pre.layers@.len() && k != pre.selected_layer ==> post.layers@[k]
            == #[trigger] pre.layers@[k]
    &&& post.layers@[sel].visible == pre.layers@[sel].visible
    &&& post.layers@[sel].name == pre.layers@[sel].name
    &&& post.selected_layer == pre.selected_layer
    &&& post.pen_size == pre.pen_size
    &&& post.shape_tool == pre.shape_tool
    &&& post.undo_stack == pre.undo_stack
    &&& post.redo_stack == pre.redo_stack
}

impl CanvasState {
    /// Stamps every given point into the selected layer with the
    /// current pen size.
    fn stamp_on_selected(&mut self, pts: &Vec<(i64, i64)>)
        requires
            old(self).wf(),
        ensures
            final(self).wf(),
            stroke_applied(*old(self), *final(self), pts_view(pts@)),
            final(self).drag_start == old(self).drag_start,
            final(self).drag_end == old(self).drag_end,
    {
        let sel = self.selected_layer;
        let pen = self.pen_size;
        let mut slot = Layer { grid: Grid::new(), visible: true, name: String::new() };
        self.layers.set_and_swap(sel, &mut slot);
        slot.grid.stamp_points(pts, pen);
        self.layers.set_and_swap(sel, &mut slot);
        proof {
            assert(final(self).layers@ =~= old(self).layers@.update(
                sel as int,
                final(self).layers@[sel as int],
            ));
        }
    }

    /// The pixel tool's action for one sampled pointer cell: fills
    /// the pen-sized block anchored at `(x, y)` on the selected
    /// layer, clipped to the grid.
    pub fn stamp_pixel(&mut self, x: i64, y: i64)
        requires
            old(self).wf(),
        ensures
            final(self).wf(),
            stroke_applied(*old(self), *final(self), seq![(x as int, y as int)]),
            final(self).drag_start == old(self).drag_start,
            final(self).drag_end == old(self).drag_end,
    {
        let mut pts: Vec<(i64, i64)> = Vec::new();
        pts.push((x, y));
        proof {
            assert(pts_view(pts@) =~= seq![(x as int, y as int)]);
        }
        self.stamp_on_selected(&pts);
    }

    /// Commits the line tool: rasterizes the 8-connected line between
    /// the anchors and pen-stamps it into the selected layer.
    pub fn draw_line_on_grid(&mut self, sx: i64, sy: i64, ex: i64, ey: i64)
        requires
            old(self).wf(),
            pt_ok((sx, sy)),
            pt_ok((ex, ey)),
        ensures
            final(self).wf(),
            stroke_applied(
                *old(self),
                *final(self),
                line_points(sx as int, sy as int, ex as int, ey as int),
            ),
            final(self).drag_start == old(self).drag_start,
            final(self).drag_end == old(self).drag_end,
    {
        let mut pts: Vec<(i64, i64)> = Vec::new();
        collect_line_pixels(sx, sy, ex, ey, &mut pts);
        proof {
            assert(Seq::<(int, int)>::empty() + line_points(
                sx as int,
                sy as int,
                ex as int,
                ey as int,
            ) =~= line_points(sx as int, sy as int, ex as int, ey as int));
        }
        self.stamp_on_selected(&pts);
    }

    /// Commits the rectangle tool: rasterizes the outline of the drag
    /// bounding box and pen-stamps it into the selected layer.
    pub fn draw_rect_on_grid(&mut self, sx: i64, sy: i64, ex: i64, ey: i64)
        requires
            old(self).wf(),
            pt_ok((sx, sy)),
            pt_ok((ex, ey)),
        ensures
            final(self).wf(),
            stroke_applied(
                *old(self),
                *final(self),
                rect_points(sx as int, sy as int, ex as int, ey as int),
            ),
            final(self).drag_start == old(self).drag_start,
            final(self).drag_end == old(self).drag_end,
    {
        let mut pts: Vec<(i64, i64)> = Vec::new();
        collect_rect_pixels(sx, sy, ex, ey, &mut pts);
        proof {
            assert(Seq::<(int, int)>::empty() + rect_points(
                sx as int,
                sy as int,
                ex as int,
                ey as int,
            ) =~= rect_points(sx as int, sy as int, ex as int, ey as int));
        }
        self.stamp_on_selected(&pts);
    }

    /// Commits the circle tool: rasterizes the midpoint circle around
    /// the drag start and pen-stamps it into the selected layer.
    pub fn draw_circle_on_grid(&mut self, sx: i64, sy: i64, ex: i64, ey: i64)
        requires
            old(self).wf(),
            pt_ok((sx, sy)),
            pt_ok((ex, ey)),
        ensures
            final(self).wf(),
            stroke_applied(
                *old(self),
                *final(self),
                circle_points(sx as int, sy as int, ex as int, ey as int),
            ),
            final(self).drag_start == old(self).drag_start,
            final(self).drag_end == old(self).drag_end,
    {
        let mut pts: Vec<(i64, i64)> = Vec::new();
        collect_circle_pixels(sx, sy, ex, ey, &mut pts);
        proof {
            assert(Seq::<(int, int)>::empty() + circle_points(
                sx as int,
                sy as int,
                ex as int,
                ey as int,
            ) =~= circle_points(sx as int, sy as int, ex as int, ey as int));
        }
        self.stamp_on_selected(&pts);
    }

    /// Commits the hexagon tool: rasterizes the rounded regular
    /// hexagon around the drag start and pen-stamps it into the
    /// selected layer.
    pub fn draw_hex_on_grid(&mut self, sx: i64, sy: i64, ex: i64, ey: i64)
        requires
            old(self).wf(),
            pt_ok((sx, sy)),
            pt_ok((ex, ey)),
        ensures
            final(self).wf(),
            stroke_applied(
                *old(self),
                *final(self),
                hex_points(sx as int, sy as int, ex as int, ey as int),
            ),
            final(self).drag_start == old(self).drag_start,
            final(self).drag_end == old(self).drag_end,
    {
        let mut pts: Vec<(i64, i64)> = Vec::new();
        collect_hex_pixels(sx, sy, ex, ey, &mut pts);
        proof {
            assert(Seq::<(int, int)>::empty() + hex_points(
                sx as int,
                sy as int,
                ex as int,
                ey as int,
            ) =~= hex_points(sx as int, sy as int, ex as int, ey as int));
        }
        self.stamp_on_selected(&pts);
    }

    /// The point set the in-progress drag would commit, for the live
    /// preview: identical to what releasing the pointer would draw,
    /// and empty when no complete drag is in progress.
    pub open spec fn preview_points(self) -> Seq<(int, int)> {
        match (self.drag_start, self.drag_end) {
            (Some(s), Some(e)) => shape_points(
                self.shape_tool,
                s.0 as int,
                s.1 as int,
                e.0 as int,
                e.1 as int,
            ),
            _ => Seq::empty(),
        }
    }

    /// Collects the preview point set for the in-progress shape drag
    /// without writing to any grid.
    pub fn shape_preview_points(&self) -> (pts: Vec<(i64, i64)>)
        requires
            self.wf(),
        ensures
            pts_view(pts@) == self.preview_points(),
    {
        let mut pts: Vec<(i64, i64)> = Vec::new();
        proof {
            assert(pts_view(pts@) =~= Seq::<(int, int)>::empty());
        }
        if let (Some(s), Some(e)) = (self.drag_start, self.drag_end) {
            match self.shape_tool {
                ShapeTool::Pixel => {},
                ShapeTool::Line => collect_line_pixels(s.0, s.1, e.0, e.1, &mut pts),
                ShapeTool::Rect => collect_rect_pixels(s.0, s.1, e.0, e.1, &mut pts),
                ShapeTool::Circle => collect_circle_pixels(s.0, s.1, e.0, e.1, &mut pts),
                ShapeTool::Hex => collect_hex_pixels(s.0, s.1, e.0, e.1, &mut pts),
            }
            proof {
                assert(pts_view(pts@) =~= self.preview_points());
            }
        }
        pts
    }
}

/// The drag-start anchor after one tick's press handling: a press
/// over the canvas re-anchors the drag, anything else keeps it.
pub open spec fn drag_start_after(pre: CanvasState, pos: Option<(i64, i64)>, pressed: bool) -> Option<
    (i64, i64),
> {
    if pressed && pos is Some {
        pos
    } else {
        pre.drag_start
    }
}

/// The drag-end anchor after one tick's press and move handling: a
/// press resets it, and while the button is down over the canvas with
/// a live anchor it follows the pointer.
pub open spec fn drag_end_after(
    pre: CanvasState,
    pos: Option<(i64, i64)>,
    pressed: bool,
    down: bool,
) -> Option<(i64, i64)> {
    let s1 = drag_start_after(pre, pos, pressed);
    let e0 = if pressed && pos is Some {
        None
    } else {
        pre.drag_end
    };
    if down && s1 is Some && pos is Some {
        pos
    } else {
        e0
    }
}

/// The cells one pointer tick writes (before pen expansion): the
/// pixel tool stamps the pointer cell while the button is down; a
/// shape tool commits its rasterized drag on release, and nothing
/// otherwise.
pub open spec fn tick_points(
    pre: CanvasState,
    pos: Option<(i64, i64)>,
    pressed: bool,
    down: bool,
    released: bool,
) -> Seq<(int, int)> {
    if pre.shape_tool == ShapeTool::Pixel {
        match pos {
            Some(p) => if down {
                seq![(p.0 as int, p.1 as int)]
            } else {
                Seq::empty()
            },
            None => Seq::empty(),
        }
    } else if released {
        match (drag_start_after(pre, pos, pressed), drag_end_after(pre, pos, pressed, down)) {
            (Some(s), Some(e)) => shape_points(
                pre.shape_tool,
                s.0 as int,
                s.1 as int,
                e.0 as int,
                e.1 as int,
            ),
            _ => Seq::empty(),
        }
    } else {
        Seq::empty()
    }
}

impl CanvasState {
    /// One interaction tick of the active tool, fed with the pointer
    /// cell (if it is over the canvas) and the button edges.
    ///
    /// A press over the canvas begins a stroke: the history snapshots
    /// the contents and the redo stack is cleared.  The pixel tool
    /// then stamps the pointer cell on every tick the button is held;
    /// the shape tools track the drag anchors and commit their shape
    /// when the button is released.  The selected layer gains exactly
    /// the pen-stamped cells of [`tick_points`]; nothing else changes.
    pub fn pointer_tick(
        &mut self,
        pos: Option<(i64, i64)>,
        pressed: bool,
        down: bool,
        released: bool,
    )
        requires
            old(self).wf(),
            pos matches Some(p) ==> pt_ok(p),
        ensures
            final(self).wf(),
            pressed && pos is Some ==> final(self).undo_view() == old(self).undo_view().push(
                old(self).content(),
            ) && final(self).redo_view().len() == 0,
            !(pressed && pos is Some) ==> final(self).undo_stack == old(self).undo_stack && final(self).redo_stack == old(self).redo_stack,
            final(self).selected_layer == old(self).selected_layer,
            final(self).pen_size == old(self).pen_size,
            final(self).shape_tool == old(self).shape_tool,
            final(self).layers@.len() == old(self).layers@.len(),
            forall|k: int|
                0 <= k < old(self).layers@.len() && k != old(self).selected_layer ==> final(self).layers@[k] == #[trigger] old(self).layers@[k],
            final(self).layers@[old(self).selected_layer as int].visible == old(self).layers@[old(self).selected_layer as int].visible,
            final(self).layers@[old(self).selected_layer as int].name == old(self).layers@[old(self).selected_layer as int].name,
            old(self).shape_tool == ShapeTool::Pixel || released ==> final(self).drag_start
                is None && final(self).drag_end is None,
            old(self).shape_tool != ShapeTool::Pixel && !released ==> final(self).drag_start
                == drag_start_after(*old(self), pos, pressed) && final(self).drag_end
                == drag_end_after(*old(self), pos, pressed, down),
            forall|i: int, j: int|
                final(self).layers@[old(self).selected_layer as int].grid.filled(i, j) == (old(self).layers@[old(self).selected_layer as int].grid.filled(i, j) || (in_bounds(i, j)
                    && stamp_covers(
                    tick_points(*old(self), pos, pressed, down, released),
                    old(self).pen_size as int,
                    i,
                    j,
                ))),
    {
        let is_pixel = match self.shape_tool {
            ShapeTool::Pixel => true,
            _ => false,
        };
        if is_pixel {
            if pressed && pos.is_some() {
                self.begin_stroke();
            }
            if down {
                if let Some(p) = pos {
                    self.stamp_pixel(p.0, p.1);
                }
            }
            self.drag_start = None;
            self.drag_end = None;
        } else {
            if pressed {
                if let Some(p) = pos {
                    self.begin_stroke();
                    self.drag_start = Some(p);
                    self.drag_end = None;
                }
            }
            if down && self.drag_start.is_some() {
                if let Some(p) = pos {
                    self.drag_end = Some(p);
                }
            }
            if released {
                if let (Some(s), Some(e)) = (self.drag_start, self.drag_end) {
                    match self.shape_tool {
                        ShapeTool::Pixel => {},
                        ShapeTool::Line => self.draw_line_on_grid(s.0, s.1, e.0, e.1),
                        ShapeTool::Rect => self.draw_rect_on_grid(s.0, s.1, e.0, e.1),
                        ShapeTool::Circle => self.draw_circle_on_grid(s.0, s.1, e.0, e.1),
                        ShapeTool::Hex => self.draw_hex_on_grid(s.0, s.1, e.0, e.1),
                    }
                }
                self.drag_start = None;
                self.drag_end = None;
            }
        }
    }
}

/// Preview law: with a complete drag in progress on a shape tool, the
/// preview point set is exactly the point set a release tick (with no
/// further pointer movement) would commit.
pub proof fn lemma_preview_matches_commit(c: CanvasState)
    requires
        c.shape_tool != ShapeTool::Pixel,
        c.drag_start is Some,
        c.drag_end is Some,
    ensures
        c.preview_points() == tick_points(c, None, false, false, true),
{
}

impl CanvasState {
    /// Cancels an in-progress drag without committing anything: the
    /// anchors are cleared and nothing else changes.
    pub fn cancel_drag(&mut self)
        requires
            old(self).wf(),
        ensures
            final(self).wf(),
            final(self).drag_start is None,
            final(self).drag_end is None,
            final(self).layers == old(self).layers,
            final(self).selected_layer == old(self).selected_layer,
            final(self).pen_size == old(self).pen_size,
            final(self).shape_tool == old(self).shape_tool,
            final(self).undo_stack == old(self).undo_stack,
            final(self).redo_stack == old(self).redo_stack,
    {
        self.drag_start = None;
        self.drag_end = None;
    }
}

/// A discrete command from the surrounding UI: the outcome of
/// external hit-testing, applied to the canvas by
/// [`CanvasState::apply_intent`].
#[derive(Clone, Copy, PartialEq, Eq, Structural, Debug)]
pub enum Intent {
    /// Switch the active shape tool.
    SelectTool(ShapeTool),
    /// Restore the newest snapshot.
    Undo,
    /// Restore the newest undone snapshot.
    Redo,
    /// Grow the pen by one cell per edge.
    PenIncrease,
    /// Shrink the pen by one cell per edge, never below 1.
    PenDecrease,
    /// Make the layer at the index the drawing target.
    SelectLayer(usize),
    /// Flip the visibility of the layer at the index.
    ToggleLayer(usize),
    /// Remove the layer at the index, keeping at least one layer.
    DeleteLayer(usize),
    /// Append a fresh, empty, visible layer.
    AddLayer,
}

/// The number a freshly added layer takes for its display name: one
/// past the current layer count (saturating at the machine limit).
pub open spec fn next_layer_number(pre: CanvasState) -> nat {
    if pre.layers@.len() + 1 <= u64::MAX {
        (pre.layers@.len() + 1) as nat
    } else {
        u64::MAX as nat
    }
}

/// The parts of the canvas that undo and redo never touch: layer
/// count, names, visibility, selection, pen, tool and drag anchors.
pub open spec fn meta_kept(pre: CanvasState, post: CanvasState) -> bool {
    &&& post.layers@.len() == pre.layers@.len()
    &&& forall|i: int|
        0 <= i < pre.layers@.len() ==> (#[trigger] post.layers@[i]).visible
            == pre.layers@[i].visible && post.layers@[i].name == pre.layers@[i].name
    &&& post.selected_layer == pre.selected_layer
    &&& post.pen_size == pre.pen_size
    &&& post.shape_tool == pre.shape_tool
    &&& post.drag_start == pre.drag_start
    &&& post.drag_end == pre.drag_end
}

/// What applying each intent means, case by case.
pub open spec fn intent_applied(pre: CanvasState, post: CanvasState, intent: Intent) -> bool {
    match intent {
        Intent::SelectTool(t) => post == CanvasState { shape_tool: t, ..pre },
        Intent::Undo => post.model() == crate::history::undo_model(pre.model()) && meta_kept(
            pre,
            post,
        ),
        Intent::Redo => post.model() == crate::history::redo_model(pre.model()) && meta_kept(
            pre,
            post,
        ),
        Intent::PenIncrease => post == CanvasState {
            pen_size: if pre.pen_size < usize::MAX {
                (pre.pen_size + 1) as usize
            } else {
                pre.pen_size
            },
            ..pre
        },
        Intent::PenDecrease => post == CanvasState {
            pen_size: if pre.pen_size > 1 {
                (pre.pen_size - 1) as usize
            } else {
                1usize
            },
            ..pre
        },
        Intent::SelectLayer(i) => post == CanvasState {
            selected_layer: if i < pre.layers@.len() {
                i
            } else {
                pre.selected_layer
            },
            ..pre
        },
        Intent::ToggleLayer(i) => if i >= pre.layers@.len() {
            post == pre
        } else {
            post == CanvasState { layers: post.layers, ..pre } && post.layers@
                == pre.layers@.update(
                i as int,
                Layer { visible: !pre.layers@[i as int].visible, ..pre.layers@[i as int] },
            )
        },
        Intent::DeleteLayer(i) => if pre.layers@.len() <= 1 || i >= pre.layers@.len() {
            post == pre
        } else {
            post == CanvasState {
                layers: post.layers,
                selected_layer: post.selected_layer,
                ..pre
            } && post.layers@ == pre.layers@.remove(i as int) && post.selected_layer as int == (
            if pre.selected_layer >= pre.layers@.len() - 1 {
                pre.layers@.len() - 2
            } else {
                pre.selected_layer as int
            })
        },
        Intent::AddLayer => {
            &&& post == CanvasState { layers: post.layers, ..pre }
            &&& post.layers@.len() == pre.layers@.len() + 1
            &&& post.layers@.subrange(0, pre.layers@.len() as int) == pre.layers@
            &&& post.layers@.last().visible
            &&& post.layers@.last().name@ == "Layer "@ + crate::text::dec_digits(
                next_layer_number(pre),
            )
            &&& forall|x: int, y: int| !post.layers@.last().grid.filled(x, y)
        },
    }
}

impl CanvasState {
    /// Applies one discrete UI command to the canvas: the pure
    /// reducer behind the tool, pen, history and layer buttons.
    pub fn apply_intent(&mut self, intent: Intent)
        requires
            old(self).wf(),
        ensures
            final(self).wf(),
            intent_applied(*old(self), *final(self), intent),
    {
        match intent {
            Intent::SelectTool(t) => {
                self.set_tool(t);
            },
            Intent::Undo => {
                self.undo();
            },
            Intent::Redo => {
                self.redo();
            },
            Intent::PenIncrease => {
                self.increase_pen();
            },
            Intent::PenDecrease => {
                self.decrease_pen();
            },
            Intent::SelectLayer(i) => {
                self.select_layer(i);
            },
            Intent::ToggleLayer(i) => {
                self.toggle_visibility(i);
                proof {
                    if i < old(self).layers@.len() {
                        assert(final(self).layers@ =~= old(self).layers@.update(
                            i as int,
                            Layer {
                                visible: !old(self).layers@[i as int].visible,
                                ..old(self).layers@[i as int]
                            },
                        ));
                    }
                }
            },
            Intent::DeleteLayer(i) => {
                self.remove_layer(i);
            },
            Intent::AddLayer => {
                let n = self.layers.len();
                let num: u64 = if (n as u64) < u64::MAX {
                    n as u64 + 1
                } else {
                    u64::MAX
                };
                let name = crate::text::layer_name(num);
                self.add_layer(name);
            },
        }
    }
}

} // verus!
