//! The canvas state: the ordered layer stack with its selection, the
//! pen size, the active shape tool and the in-progress drag anchors.
//!
//! Layer order is compositing order (later layers draw over earlier
//! ones) and also the identity used for indexed selection.  The stack
//! always holds at least one layer; deleting the last remaining layer
//! is a no-op, as is every other out-of-range request.

use vstd::prelude::*;
use vstd::string::StringExecFns;
use vstd::pervasive::VecAdditionalExecFns;
use crate::grid::Grid;
use crate::raster::COORD_LIMIT;

verus! {

/// The drawing tools: a freehand pixel pen and four drag shapes.
#[derive(Clone, Copy, PartialEq, Eq, Structural, Debug)]
pub enum ShapeTool {
    Pixel,
    Line,
    Rect,
    Circle,
    Hex,
}

/// One layer: a bitmap with a display name and a visibility flag.
/// Invisible layers are excluded from compositing and export but stay
/// drawable once shown again.
pub struct Layer {
    pub grid: Grid,
    pub visible: bool,
    pub name: String,
}

impl Layer {
    /// A layer is well formed when its grid is.
    pub open spec fn wf(self) -> bool {
        self.grid.wf()
    }

    /// A fresh, fully empty, visible layer.
    pub fn new(name: String) -> (l: Layer)
        ensures
            l.wf(),
            l.visible,
            l.name@ == name@,
            forall|x: int, y: int| !l.grid.filled(x, y),
    {
        Layer { grid: Grid::new(), visible: true, name }
    }
}

/// True when a drag anchor is within the coordinate range the
/// rasterizers accept.
pub open spec fn pt_ok(p: (i64, i64)) -> bool {
    -COORD_LIMIT <= p.0 <= COORD_LIMIT && -COORD_LIMIT <= p.1 <= COORD_LIMIT
}

/// The bitmaps of a history snapshot, as sequences of cells.
pub open spec fn snap_view(s: Seq<Grid>) -> Seq<Seq<bool>> {
    s.map_values(|g: Grid| g@)
}

/// Every grid of a snapshot has the fixed canvas dimensions.
pub open spec fn snap_wf(s: Seq<Grid>) -> bool {
    forall|i: int| 0 <= i < s.len() ==> (#[trigger] s[i]).wf()
}

/// A history stack of snapshots, as sequences of cells.
pub open spec fn stack_view(s: Seq<Vec<Grid>>) -> Seq<Seq<Seq<bool>>> {
    s.map_values(|v: Vec<Grid>| snap_view(v@))
}

/// Every snapshot of a history stack is well formed.
pub open spec fn stack_wf(s: Seq<Vec<Grid>>) -> bool {
    forall|i: int| 0 <= i < s.len() ==> snap_wf((#[trigger] s[i])@)
}

/// The whole canvas: the layer stack, the interaction state and the
/// undo/redo history.
pub struct CanvasState {
    /// The ordered layer stack; never empty.
    pub layers: Vec<Layer>,
    /// Index of the only layer that drawing operations mutate.
    pub selected_layer: usize,
    /// Cells per stamped block edge; at least 1.
    pub pen_size: usize,
    /// The active drawing tool.
    pub shape_tool: ShapeTool,
    /// Anchor where an in-progress shape drag started.
    pub drag_start: Option<(i64, i64)>,
    /// Most recent position of an in-progress shape drag.
    pub drag_end: Option<(i64, i64)>,
    /// Past contents, most recent on top; each entry snapshots every
    /// layer's bitmap.
    pub undo_stack: Vec<Vec<Grid>>,
    /// Undone contents, restored by redo; cleared by every new stroke.
    pub redo_stack: Vec<Vec<Grid>>,
}

impl CanvasState {
    /// The bitmaps of all layers, in stack order.
    pub open spec fn content(self) -> Seq<Seq<bool>> {
        self.layers@.map_values(|l: Layer| l.grid@)
    }

    /// The undo stack's snapshots, as sequences of cells.
    pub open spec fn undo_view(self) -> Seq<Seq<Seq<bool>>> {
        stack_view(self.undo_stack@)
    }

    /// The redo stack's snapshots, as sequences of cells.
    pub open spec fn redo_view(self) -> Seq<Seq<Seq<bool>>> {
        stack_view(self.redo_stack@)
    }

    /// Structural invariant: at least one layer, a valid selection, a
    /// positive pen, bounded drag anchors and well-formed bitmaps
    /// everywhere.
    pub open spec fn wf(self) -> bool {
        &&& self.layers@.len() >= 1
        &&& self.selected_layer < self.layers@.len()
        &&& self.pen_size >= 1
        &&& forall|i: int| 0 <= i < self.layers@.len() ==> (#[trigger] self.layers@[i]).wf()
        &&& stack_wf(self.undo_stack@)
        &&& stack_wf(self.redo_stack@)
        &&& (self.drag_start matches Some(p) ==> pt_ok(p))
        &&& (self.drag_end matches Some(p) ==> pt_ok(p))
    }

    /// A fresh canvas: one empty visible layer named "Layer 1",
    /// pixel tool, pen size 1, empty history.
    pub fn new() -> (c: CanvasState)
        ensures
            c.wf(),
            c.layers@.len() == 1,
            c.layers@[0].visible,
            c.layers@[0].name@ == "Layer 1"@,
            forall|x: int, y: int| !c.layers@[0].grid.filled(x, y),
            c.selected_layer == 0,
            c.pen_size == 1,
            c.shape_tool == ShapeTool::Pixel,
            c.drag_start is None,
            c.drag_end is None,
            c.undo_view() == Seq::<Seq<Seq<bool>>>::empty(),
            c.redo_view() == Seq::<Seq<Seq<bool>>>::empty(),
    {
        let mut layers: Vec<Layer> = Vec::new();
        layers.push(Layer::new(String::from_str("Layer 1")));
        let c = CanvasState {
            layers,
            selected_layer: 0,
            pen_size: 1,
            shape_tool: ShapeTool::Pixel,
            drag_start: None,
            drag_end: None,
            undo_stack: Vec::new(),
            redo_stack: Vec::new(),
        };
        proof {
            assert(c.undo_view() =~= Seq::<Seq<Seq<bool>>>::empty());
            assert(c.redo_view() =~= Seq::<Seq<Seq<bool>>>::empty());
        }
        c
    }

    /// Appends a new, fully empty, visible layer, addressable at the
    /// new highest index.  Nothing else changes.
    pub fn add_layer(&mut self, name: String)
        requires
            old(self).wf(),
        ensures
            final(self).wf(),
            final(self).layers@.len() == old(self).layers@.len() + 1,
            final(self).layers@.subrange(0, old(self).layers@.len() as int) == old(self).layers@,
            final(self).layers@.last().visible,
            final(self).layers@.last().name@ == name@,
            forall|x: int, y: int| !final(self).layers@.last().grid.filled(x, y),
            final(self).selected_layer == old(self).selected_layer,
            final(self).pen_size == old(self).pen_size,
            final(self).shape_tool == old(self).shape_tool,
            final(self).drag_start == old(self).drag_start,
            final(self).drag_end == old(self).drag_end,
            final(self).undo_stack == old(self).undo_stack,
            final(self).redo_stack == old(self).redo_stack,
    {
        self.layers.push(Layer::new(name));
        proof {
            assert(final(self).layers@.subrange(0, old(self).layers@.len() as int)
                =~= old(self).layers@);
        }
    }

    /// Removes the layer at `index`.  A no-op when only one layer
    /// remains or when `index` is out of range; otherwise the layer
    /// disappears and the selection is clamped to the last valid
    /// index.  In particular, deleting the last remaining layer
    /// leaves exactly one layer present and unchanged.
    pub fn remove_layer(&mut self, index: usize)
        requires
            old(self).wf(),
        ensures
            final(self).wf(),
            old(self).layers@.len() <= 1 || index >= old(self).layers@.len() ==> *final(self)
                == *old(self),
            old(self).layers@.len() > 1 && index < old(self).layers@.len() ==> {
                &&& final(self).layers@ == old(self).layers@.remove(index as int)
                &&& final(self).selected_layer == if old(self).selected_layer
                    >= old(self).layers@.len() - 1 {
                    old(self).layers@.len() - 2
                } else {
                    old(self).selected_layer as int
                }
            },
            final(self).pen_size == old(self).pen_size,
            final(self).shape_tool == old(self).shape_tool,
            final(self).drag_start == old(self).drag_start,
            final(self).drag_end == old(self).drag_end,
            final(self).undo_stack == old(self).undo_stack,
            final(self).redo_stack == old(self).redo_stack,
    {
        if self.layers.len() > 1 && index < self.layers.len() {
            self.layers.remove(index);
            if self.selected_layer >= self.layers.len() {
                self.selected_layer = self.layers.len() - 1;
            }
        }
    }

    /// Flips the visibility flag of the layer at `index`; a no-op
    /// when `index` is out of range.  The layer's bitmap and name are
    /// untouched.
    pub fn toggle_visibility(&mut self, index: usize)
        requires
            old(self).wf(),
        ensures
            final(self).wf(),
            index >= old(self).layers@.len() ==> *final(self) == *old(self),
            index < old(self).layers@.len() ==> {
                &&& final(self).layers@.len() == old(self).layers@.len()
                &&& final(self).layers@[index as int].visible == !old(
                    self,
                ).layers@[index as int].visible
                &&& final(self).layers@[index as int].grid == old(self).layers@[index as int].grid
                &&& final(self).layers@[index as int].name == old(self).layers@[index as int].name
                &&& forall|i: int|
                    0 <= i < old(self).layers@.len() && i != index ==> final(self).layers@[i]
                        == old(self).layers@[i]
            },
            final(self).selected_layer == old(self).selected_layer,
            final(self).pen_size == old(self).pen_size,
            final(self).shape_tool == old(self).shape_tool,
            final(self).drag_start == old(self).drag_start,
            final(self).drag_end == old(self).drag_end,
            final(self).undo_stack == old(self).undo_stack,
            final(self).redo_stack == old(self).redo_stack,
    {
        if index < self.layers.len() {
            let mut slot = Layer { grid: Grid::new(), visible: true, name: String::new() };
            self.layers.set_and_swap(index, &mut slot);
            slot.visible = !slot.visible;
            self.layers.set_and_swap(index, &mut slot);
            proof {
                assert(final(self).layers@ =~= old(self).layers@.update(
                    index as int,
                    final(self).layers@[index as int],
                ));
            }
        }
    }

    /// Selects the layer at `index` as the target of all subsequent
    /// drawing; a no-op when `index` is out of range.
    pub fn select_layer(&mut self, index: usize)
        requires
            old(self).wf(),
        ensures
            final(self).wf(),
            final(self).selected_layer == if index < old(self).layers@.len() {
                index as int
            } else {
                old(self).selected_layer as int
            },
            final(self).layers == old(self).layers,
            final(self).pen_size == old(self).pen_size,
            final(self).shape_tool == old(self).shape_tool,
            final(self).drag_start == old(self).drag_start,
            final(self).drag_end == old(self).drag_end,
            final(self).undo_stack == old(self).undo_stack,
            final(self).redo_stack == old(self).redo_stack,
    {
        if index < self.layers.len() {
            self.selected_layer = index;
        }
    }

    /// Switches the active shape tool.
    pub fn set_tool(&mut self, tool: ShapeTool)
        requires
            old(self).wf(),
        ensures
            final(self).wf(),
            final(self).shape_tool == tool,
            final(self).layers == old(self).layers,
            final(self).selected_layer == old(self).selected_layer,
            final(self).pen_size == old(self).pen_size,
            final(self).drag_start == old(self).drag_start,
            final(self).drag_end == old(self).drag_end,
            final(self).undo_stack == old(self).undo_stack,
            final(self).redo_stack == old(self).redo_stack,
    {
        self.shape_tool = tool;
    }

    /// Grows the pen by one cell per edge, saturating at the machine
    /// limit.
    pub fn increase_pen(&mut self)
        requires
            old(self).wf(),
        ensures
            final(self).wf(),
            final(self).pen_size == if old(self).pen_size < usize::MAX {
                old(self).pen_size + 1
            } else {
                old(self).pen_size as int
            },
            final(self).layers == old(self).layers,
            final(self).selected_layer == old(self).selected_layer,
            final(self).shape_tool == old(self).shape_tool,
            final(self).drag_start == old(self).drag_start,
            final(self).drag_end == old(self).drag_end,
            final(self).undo_stack == old(self).undo_stack,
            final(self).redo_stack == old(self).redo_stack,
    {
        if self.pen_size < usize::MAX {
            self.pen_size = self.pen_size + 1;
        }
    }

    /// Shrinks the pen by one cell per edge; the pen size never goes
    /// below 1.
    pub fn decrease_pen(&mut self)
        requires
            old(self).wf(),
        ensures
            final(self).wf(),
            final(self).pen_size == if old(self).pen_size > 1 {
                old(self).pen_size - 1
            } else {
                1int
            },
            final(self).layers == old(self).layers,
            final(self).selected_layer == old(self).selected_layer,
            final(self).shape_tool == old(self).shape_tool,
            final(self).drag_start == old(self).drag_start,
            final(self).drag_end == old(self).drag_end,
            final(self).undo_stack == old(self).undo_stack,
            final(self).redo_stack == old(self).redo_stack,
    {
        if self.pen_size > 1 {
            self.pen_size = self.pen_size - 1;
        }
    }
}

} // verus!
