//! Snapshot-based undo/redo over the whole layer stack.
//!
//! A snapshot is an independent deep copy of every layer's bitmap,
//! taken at the instant a drawing gesture begins.  Undo and redo move
//! snapshots between two stacks and swap them with the live contents;
//! a new stroke discards the redo stack, so a redone future that the
//! user diverges from is gone for good.

use vstd::prelude::*;
use vstd::pervasive::VecAdditionalExecFns;
use crate::grid::Grid;
use crate::state::CanvasState;
use crate::state::Layer;
use crate::state::snap_view;
use crate::state::snap_wf;

verus! {

/// The contents after restoring snapshot `snap` over `cur`: each
/// layer whose index the snapshot covers takes the snapshot's bitmap,
/// layers beyond it keep theirs.
pub open spec fn restore_content(cur: Seq<Seq<bool>>, snap: Seq<Seq<bool>>) -> Seq<Seq<bool>> {
    Seq::new(
        cur.len(),
        |i: int|
            if i < snap.len() {
                snap[i]
            } else {
                cur[i]
            },
    )
}

/// The history-relevant part of a canvas: the live layer bitmaps and
/// the two snapshot stacks, most recent snapshot last.
#[verifier::ext_equal]
pub struct HistoryModel {
    /// The live bitmaps, one per layer, in stack order.
    pub content: Seq<Seq<bool>>,
    /// Past contents.
    pub undo: Seq<Seq<Seq<bool>>>,
    /// Undone contents.
    pub redo: Seq<Seq<Seq<bool>>>,
}

/// What beginning a stroke does to the history: the current contents
/// are pushed onto undo and the redo stack is discarded.
pub open spec fn stroke_begin_model(m: HistoryModel) -> HistoryModel {
    HistoryModel { content: m.content, undo: m.undo.push(m.content), redo: Seq::empty() }
}

/// What undo does to the history: a no-op on an empty undo stack;
/// otherwise the newest snapshot is popped and restored, and the
/// current contents move to the redo stack.
pub open spec fn undo_model(m: HistoryModel) -> HistoryModel {
    if m.undo.len() == 0 {
        m
    } else {
        HistoryModel {
            content: restore_content(m.content, m.undo.last()),
            undo: m.undo.drop_last(),
            redo: m.redo.push(m.content),
        }
    }
}

/// What redo does to the history: a no-op on an empty redo stack;
/// otherwise the newest undone snapshot is popped and restored, and
/// the current contents move back to the undo stack.
pub open spec fn redo_model(m: HistoryModel) -> HistoryModel {
    if m.redo.len() == 0 {
        m
    } else {
        HistoryModel {
            content: restore_content(m.content, m.redo.last()),
            undo: m.undo.push(m.content),
            redo: m.redo.drop_last(),
        }
    }
}

/// Round-trip law: whenever an undo is possible, undo followed by
/// redo restores the exact pre-undo bitmaps, whatever sequence of
/// strokes produced the canvas.
pub proof fn lemma_undo_redo_round_trip(m: HistoryModel)
    requires
        m.undo.len() > 0,
    ensures
        redo_model(undo_model(m)).content == m.content,
{
    let m1 = undo_model(m);
    assert(m1.redo.last() == m.content);
    assert(m1.content.len() == m.content.len());
    assert(redo_model(m1).content =~= m.content);
}

/// A new stroke discards the redone future: after a stroke begins the
/// redo stack is empty, so a redo right after it changes nothing.
pub proof fn lemma_stroke_clears_redo(m: HistoryModel)
    ensures
        stroke_begin_model(m).redo.len() == 0,
        redo_model(stroke_begin_model(m)) == stroke_begin_model(m),
{
}

impl CanvasState {
    /// The history-relevant view of this canvas.
    pub open spec fn model(self) -> HistoryModel {
        HistoryModel { content: self.content(), undo: self.undo_view(), redo: self.redo_view() }
    }

    /// An independent deep copy of every layer's bitmap, in order.
    fn snapshot(&self) -> (s: Vec<Grid>)
        requires
            self.wf(),
        ensures
            snap_view(s@) == self.content(),
            snap_wf(s@),
    {
        let mut s: Vec<Grid> = Vec::new();
        let mut i: usize = 0;
        while i < self.layers.len()
            invariant
                self.wf(),
                0 <= i <= self.layers@.len(),
                s@.len() == i,
                forall|j: int| 0 <= j < i ==> (#[trigger] s@[j])@ == self.layers@[j].grid@,
            decreases self.layers@.len() - i,
        {
            s.push(self.layers[i].grid.duplicate());
            i = i + 1;
        }
        proof {
            assert(snap_view(s@) =~= self.content());
        }
        s
    }

    /// Replaces each layer's bitmap with the snapshot's, index by
    /// index; layers beyond the snapshot keep their contents, and
    /// names, visibility, selection and the stacks are untouched.
    fn restore(&mut self, snap: &Vec<Grid>)
        requires
            old(self).wf(),
            snap_wf(snap@),
        ensures
            final(self).wf(),
            final(self).content() == restore_content(old(self).content(), snap_view(snap@)),
            final(self).layers@.len() == old(self).layers@.len(),
            forall|i: int|
                0 <= i < old(self).layers@.len() ==> (#[trigger] final(self).layers@[i]).visible
                    == old(self).layers@[i].visible && final(self).layers@[i].name
                    == old(self).layers@[i].name,
            final(self).selected_layer == old(self).selected_layer,
            final(self).pen_size == old(self).pen_size,
            final(self).shape_tool == old(self).shape_tool,
            final(self).drag_start == old(self).drag_start,
            final(self).drag_end == old(self).drag_end,
            final(self).undo_stack == old(self).undo_stack,
            final(self).redo_stack == old(self).redo_stack,
    {
        let n: usize = if snap.len() < self.layers.len() {
            snap.len()
        } else {
            self.layers.len()
        };
        let mut i: usize = 0;
        while i < n
            invariant
                0 <= i <= n,
                n <= snap@.len(),
                n <= self.layers@.len(),
                snap_wf(snap@),
                self.layers@.len() == old(self).layers@.len(),
                self.selected_layer == old(self).selected_layer,
                self.pen_size == old(self).pen_size,
                self.shape_tool == old(self).shape_tool,
                self.drag_start == old(self).drag_start,
                self.drag_end == old(self).drag_end,
                self.undo_stack == old(self).undo_stack,
                self.redo_stack == old(self).redo_stack,
                old(self).wf(),
                forall|j: int|
                    0 <= j < i ==> (#[trigger] self.layers@[j]).grid@ == snap@[j]@,
                forall|j: int|
                    i <= j < self.layers@.len() ==> #[trigger] self.layers@[j]
                        == old(self).layers@[j],
                forall|j: int|
                    0 <= j < self.layers@.len() ==> (#[trigger] self.layers@[j]).visible == old(
                        self,
                    ).layers@[j].visible && self.layers@[j].name == old(self).layers@[j].name
                        && self.layers@[j].wf(),
            decreases n - i,
        {
            let mut slot = Layer { grid: crate::grid::Grid::new(), visible: true, name: String::new() };
            self.layers.set_and_swap(i, &mut slot);
            slot.grid = snap[i].duplicate();
            self.layers.set_and_swap(i, &mut slot);
            i = i + 1;
        }
        proof {
            assert(final(self).content() =~= restore_content(
                old(self).content(),
                snap_view(snap@),
            ));
        }
    }

    /// The transition at the instant a drawing gesture begins: pushes
    /// a deep copy of the current contents onto the undo stack and
    /// clears the redo stack.  The bitmaps themselves do not change.
    pub fn begin_stroke(&mut self)
        requires
            old(self).wf(),
        ensures
            final(self).wf(),
            final(self).model() == stroke_begin_model(old(self).model()),
            final(self).layers == old(self).layers,
            final(self).selected_layer == old(self).selected_layer,
            final(self).pen_size == old(self).pen_size,
            final(self).shape_tool == old(self).shape_tool,
            final(self).drag_start == old(self).drag_start,
            final(self).drag_end == old(self).drag_end,
    {
        let snap = self.snapshot();
        self.undo_stack.push(snap);
        self.redo_stack.clear();
        proof {
            assert(final(self).undo_view() =~= old(self).undo_view().push(old(self).content()));
            assert(final(self).redo_view() =~= Seq::<Seq<Seq<bool>>>::empty());
            assert(final(self).model() =~= stroke_begin_model(old(self).model()));
        }
    }

    /// Undo: pops the newest snapshot, parks the current contents on
    /// the redo stack and restores the snapshot's bitmaps.  A no-op
    /// when the undo stack is empty.  Only bitmaps move: layer names,
    /// visibility and the selection stay.
    pub fn undo(&mut self)
        requires
            old(self).wf(),
        ensures
            final(self).wf(),
            final(self).model() == undo_model(old(self).model()),
            final(self).layers@.len() == old(self).layers@.len(),
            forall|i: int|
                0 <= i < old(self).layers@.len() ==> (#[trigger] final(self).layers@[i]).visible
                    == old(self).layers@[i].visible && final(self).layers@[i].name
                    == old(self).layers@[i].name,
            final(self).selected_layer == old(self).selected_layer,
            final(self).pen_size == old(self).pen_size,
            final(self).shape_tool == old(self).shape_tool,
            final(self).drag_start == old(self).drag_start,
            final(self).drag_end == old(self).drag_end,
    {
        if self.undo_stack.len() > 0 {
            let cur = self.snapshot();
            let snap = self.undo_stack.pop().unwrap();
            self.redo_stack.push(cur);
            self.restore(&snap);
            proof {
                assert(final(self).undo_view() =~= old(self).undo_view().drop_last());
                assert(final(self).redo_view() =~= old(self).redo_view().push(
                    old(self).content(),
                ));
                assert(snap_view(snap@) == old(self).undo_view().last());
                assert(final(self).model() =~= undo_model(old(self).model()));
            }
        }
    }

    /// Redo: pops the newest undone snapshot, parks the current
    /// contents back on the undo stack and restores the snapshot's
    /// bitmaps.  A no-op when the redo stack is empty.
    pub fn redo(&mut self)
        requires
            old(self).wf(),
        ensures
            final(self).wf(),
            final(self).model() == redo_model(old(self).model()),
            final(self).layers@.len() == old(self).layers@.len(),
            forall|i: int|
                0 <= i < old(self).layers@.len() ==> (#[trigger] final(self).layers@[i]).visible
                    == old(self).layers@[i].visible && final(self).layers@[i].name
                    == old(self).layers@[i].name,
            final(self).selected_layer == old(self).selected_layer,
            final(self).pen_size == old(self).pen_size,
            final(self).shape_tool == old(self).shape_tool,
            final(self).drag_start == old(self).drag_start,
            final(self).drag_end == old(self).drag_end,
    {
        if self.redo_stack.len() > 0 {
            let cur = self.snapshot();
            let snap = self.redo_stack.pop().unwrap();
            self.undo_stack.push(cur);
            self.restore(&snap);
            proof {
                assert(final(self).redo_view() =~= old(self).redo_view().drop_last());
                assert(final(self).undo_view() =~= old(self).undo_view().push(
                    old(self).content(),
                ));
                assert(snap_view(snap@) == old(self).redo_view().last());
                assert(final(self).model() =~= redo_model(old(self).model()));
            }
        }
    }
}

} // verus!
