//! The exporter: a greedy rectangle decomposition of a bitmap and its
//! serialization as a textual drawing routine.
//!
//! Cells are scanned in row-major order; at each unvisited filled
//! cell a rectangle grows right as far as the row allows, then down
//! as long as every covered cell of the next row is filled and
//! unvisited.  The resulting rectangles are pairwise disjoint and
//! their union is exactly the filled set; their number is not
//! minimized, and the scan order is part of the observable output.

use vstd::prelude::*;
use vstd::string::StringExecFns;
use crate::grid::GRID_HEIGHT;
use crate::grid::GRID_WIDTH;
use crate::grid::Grid;
use crate::grid::in_bounds;
use crate::state::CanvasState;
use crate::state::Layer;
use crate::text::dec_digits;
use crate::text::push_decimal;

verus! {

/// One exported rectangle, in grid-cell units, always fully inside
/// the grid and composed of cells that were filled and not yet
/// covered when it was built.
#[derive(Clone, Copy, PartialEq, Eq, Structural, Debug)]
pub struct ExportRect {
    /// Left column.
    pub x: usize,
    /// Top row.
    pub y: usize,
    /// Width in cells; at least 1.
    pub w: usize,
    /// Height in cells; at least 1.
    pub h: usize,
}

/// True when `(i, j)` lies inside rectangle `r`.
pub open spec fn rect_covers(r: ExportRect, i: int, j: int) -> bool {
    r.x <= i < r.x + r.w && r.y <= j < r.y + r.h
}

/// True when some rectangle among the first `n` of `rs` covers
/// `(i, j)`.
pub open spec fn rects_cover_upto(rs: Seq<ExportRect>, n: int, i: int, j: int) -> bool {
    exists|k: int| 0 <= k < n && k < rs.len() && #[trigger] rect_covers(rs[k], i, j)
}

/// True when some rectangle of `rs` covers `(i, j)`.
pub open spec fn rects_cover(rs: Seq<ExportRect>, i: int, j: int) -> bool {
    rects_cover_upto(rs, rs.len() as int, i, j)
}

/// Every rectangle is non-degenerate and fully inside the grid.
pub open spec fn rects_in_grid(rs: Seq<ExportRect>) -> bool {
    forall|k: int|
        0 <= k < rs.len() ==> (#[trigger] rs[k]).w >= 1 && rs[k].h >= 1 && rs[k].x + rs[k].w
            <= GRID_WIDTH && rs[k].y + rs[k].h <= GRID_HEIGHT
}

/// Every covered cell is filled in `g`.
pub open spec fn rects_filled(g: Grid, rs: Seq<ExportRect>) -> bool {
    forall|k: int, i: int, j: int|
        0 <= k < rs.len() && #[trigger] rect_covers(rs[k], i, j) ==> g.filled(i, j)
}

/// No cell is covered by two rectangles.
pub open spec fn rects_disjoint(rs: Seq<ExportRect>) -> bool {
    forall|k1: int, k2: int, i: int, j: int|
        0 <= k1 < k2 < rs.len() ==> !(#[trigger] rect_covers(rs[k1], i, j)
            && #[trigger] rect_covers(rs[k2], i, j))
}

/// The rectangles partition the filled set exactly: they lie inside
/// the grid on filled cells, are pairwise disjoint, and together
/// cover every filled cell.
pub open spec fn rects_exact(g: Grid, rs: Seq<ExportRect>) -> bool {
    &&& rects_in_grid(rs)
    &&& rects_filled(g, rs)
    &&& rects_disjoint(rs)
    &&& forall|i: int, j: int| #[trigger] g.filled(i, j) ==> rects_cover(rs, i, j)
}

/// Marks every cell of the rectangle visited.
fn mark_rect(vis: &mut Grid, x: usize, y: usize, w: usize, h: usize)
    requires
        old(vis).wf(),
        x + w <= GRID_WIDTH,
        y + h <= GRID_HEIGHT,
    ensures
        final(vis).wf(),
        forall|i: int, j: int|
            final(vis).filled(i, j) == (old(vis).filled(i, j) || (x <= i < x + w && y <= j < y
                + h)),
{
    let ghost v0 = *vis;
    let mut e: usize = 0;
    while e < h
        invariant
            vis.wf(),
            v0.wf(),
            e <= h,
            x + w <= GRID_WIDTH,
            y + h <= GRID_HEIGHT,
            forall|i: int, j: int|
                #[trigger] vis.filled(i, j) == (v0.filled(i, j) || (x <= i < x + w && y <= j < y
                    + e)),
        decreases h - e,
    {
        let mut d: usize = 0;
        while d < w
            invariant
                vis.wf(),
                v0.wf(),
                e < h,
                d <= w,
                x + w <= GRID_WIDTH,
                y + h <= GRID_HEIGHT,
                forall|i: int, j: int|
                    #[trigger] vis.filled(i, j) == (v0.filled(i, j) || (x <= i < x + w && y <= j
                        < y + e) || (x <= i < x + d && j == y + e)),
            decreases w - d,
        {
            vis.set_cell((x + d) as i64, (y + e) as i64);
            d = d + 1;
        }
        e = e + 1;
    }
}

/// Grows the rectangle's width from `(x, y)`: the widest run of
/// filled, unvisited cells in row `y` starting at `x`.
fn grow_width(g: &Grid, vis: &Grid, x: usize, y: usize) -> (w: usize)
    requires
        g.wf(),
        vis.wf(),
        x < GRID_WIDTH,
        y < GRID_HEIGHT,
        g.filled(x as int, y as int),
        !vis.filled(x as int, y as int),
    ensures
        1 <= w,
        x + w <= GRID_WIDTH,
        forall|i: int, j: int| x <= i < x + w && j == y ==> #[trigger] g.filled(i, j),
        forall|i: int, j: int| x <= i < x + w && j == y ==> !(#[trigger] vis.filled(i, j)),
{
    let mut w: usize = 1;
    while x + w < GRID_WIDTH && cell_free(g, vis, x + w, y)
        invariant
            g.wf(),
            vis.wf(),
            x < GRID_WIDTH,
            y < GRID_HEIGHT,
            1 <= w,
            x + w <= GRID_WIDTH,
            forall|i: int, j: int| x <= i < x + w && j == y ==> #[trigger] g.filled(i, j),
            forall|i: int, j: int| x <= i < x + w && j == y ==> !(#[trigger] vis.filled(i, j)),
        decreases GRID_WIDTH - x - w,
    {
        w = w + 1;
    }
    w
}

/// True when the cell is filled and not yet covered by a rectangle.
fn cell_free(g: &Grid, vis: &Grid, cx: usize, cy: usize) -> (r: bool)
    requires
        g.wf(),
        vis.wf(),
        cx <= GRID_WIDTH,
        cy <= GRID_HEIGHT,
    ensures
        r == (g.filled(cx as int, cy as int) && !vis.filled(cx as int, cy as int)),
{
    g.is_filled(cx as i64, cy as i64) && !vis.is_filled(cx as i64, cy as i64)
}

/// True only when every cell of row `cy` across columns `[x, x + w)`
/// is filled and not yet covered.
fn row_free(g: &Grid, vis: &Grid, x: usize, cy: usize, w: usize) -> (r: bool)
    requires
        g.wf(),
        vis.wf(),
        x + w <= GRID_WIDTH,
        cy <= GRID_HEIGHT,
    ensures
        r ==> forall|i: int, j: int| x <= i < x + w && j == cy ==> #[trigger] g.filled(i, j),
        r ==> forall|i: int, j: int|
            x <= i < x + w && j == cy ==> !(#[trigger] vis.filled(i, j)),
{
    let mut c: usize = 0;
    let mut ok = true;
    while c < w
        invariant
            g.wf(),
            vis.wf(),
            c <= w,
            x + w <= GRID_WIDTH,
            cy <= GRID_HEIGHT,
            ok ==> forall|i: int, j: int| x <= i < x + c && j == cy ==> #[trigger] g.filled(i, j),
            ok ==> forall|i: int, j: int|
                x <= i < x + c && j == cy ==> !(#[trigger] vis.filled(i, j)),
        decreases w - c,
    {
        if !cell_free(g, vis, x + c, cy) {
            ok = false;
        }
        c = c + 1;
    }
    ok
}

/// Grows the rectangle's height from row `y`: rows are added while
/// the entire next row across columns `[x, x + w)` is filled and
/// unvisited.
fn grow_height(g: &Grid, vis: &Grid, x: usize, y: usize, w: usize) -> (h: usize)
    requires
        g.wf(),
        vis.wf(),
        x < GRID_WIDTH,
        y < GRID_HEIGHT,
        1 <= w,
        x + w <= GRID_WIDTH,
        forall|i: int, j: int| x <= i < x + w && j == y ==> #[trigger] g.filled(i, j),
        forall|i: int, j: int| x <= i < x + w && j == y ==> !(#[trigger] vis.filled(i, j)),
    ensures
        1 <= h,
        y + h <= GRID_HEIGHT,
        forall|i: int, j: int| x <= i < x + w && y <= j < y + h ==> #[trigger] g.filled(i, j),
        forall|i: int, j: int|
            x <= i < x + w && y <= j < y + h ==> !(#[trigger] vis.filled(i, j)),
{
    let mut h: usize = 1;
    while y + h < GRID_HEIGHT && row_free(g, vis, x, y + h, w)
        invariant
            g.wf(),
            vis.wf(),
            x < GRID_WIDTH,
            y < GRID_HEIGHT,
            1 <= w,
            x + w <= GRID_WIDTH,
            1 <= h,
            y + h <= GRID_HEIGHT,
            forall|i: int, j: int| x <= i < x + w && y <= j < y + h ==> #[trigger] g.filled(i, j),
            forall|i: int, j: int|
                x <= i < x + w && y <= j < y + h ==> !(#[trigger] vis.filled(i, j)),
        decreases GRID_HEIGHT - y - h,
    {
        h = h + 1;
    }
    h
}

/// Decomposes the filled cells of `g` into rectangles by the greedy
/// row-major scan.  The result partitions the filled set exactly:
/// rectangles lie inside the grid on filled cells, no two overlap,
/// and every filled cell is covered — for any bitmap, including the
/// empty one (no rectangles) and the full one.
pub fn export_rects(g: &Grid) -> (rs: Vec<ExportRect>)
    requires
        g.wf(),
    ensures
        rects_exact(*g, rs@),
{
    let mut rs: Vec<ExportRect> = Vec::new();
    let mut vis = Grid::new();
    let mut y: usize = 0;
    while y < GRID_HEIGHT
        invariant
            g.wf(),
            vis.wf(),
            y <= GRID_HEIGHT,
            forall|i: int, j: int| #[trigger] vis.filled(i, j) ==> g.filled(i, j),
            forall|i: int, j: int|
                #[trigger] vis.filled(i, j) ==> rects_cover_upto(rs@, rs@.len() as int, i, j),
            forall|k: int, i: int, j: int|
                0 <= k < rs@.len() && #[trigger] rect_covers(rs@[k], i, j) ==> vis.filled(i, j),
            rects_in_grid(rs@),
            rects_disjoint(rs@),
            forall|i: int, j: int|
                in_bounds(i, j) && j < y && #[trigger] g.filled(i, j) ==> vis.filled(i, j),
        decreases GRID_HEIGHT - y,
    {
        let mut x: usize = 0;
        while x < GRID_WIDTH
            invariant
                g.wf(),
                vis.wf(),
                y < GRID_HEIGHT,
                x <= GRID_WIDTH,
                forall|i: int, j: int| #[trigger] vis.filled(i, j) ==> g.filled(i, j),
                forall|i: int, j: int|
                    #[trigger] vis.filled(i, j) ==> rects_cover_upto(rs@, rs@.len() as int, i, j),
                forall|k: int, i: int, j: int|
                    0 <= k < rs@.len() && #[trigger] rect_covers(rs@[k], i, j) ==> vis.filled(i, j),
                rects_in_grid(rs@),
                rects_disjoint(rs@),
                forall|i: int, j: int|
                    in_bounds(i, j) && (j < y || (j == y && i < x)) && #[trigger] g.filled(i, j)
                        ==> vis.filled(i, j),
            decreases GRID_WIDTH - x,
        {
            if g.is_filled(x as i64, y as i64) && !vis.is_filled(x as i64, y as i64) {
                let w = grow_width(g, &vis, x, y);
                let h = grow_height(g, &vis, x, y, w);
                let r = ExportRect { x, y, w, h };
                let ghost rs0 = rs@;
                let ghost vis0 = vis;
                rs.push(r);
                mark_rect(&mut vis, x, y, w, h);
                proof {
                    let n = rs0.len() as int;
                    assert forall|i: int, j: int| #[trigger] vis.filled(i, j) implies
                        rects_cover_upto(rs@, rs@.len() as int, i, j) by {
                        if vis0.filled(i, j) {
                            let k = choose|k: int|
                                0 <= k < n && k < rs0.len() && #[trigger] rect_covers(
                                    rs0[k],
                                    i,
                                    j,
                                );
                            assert(rect_covers(rs@[k], i, j));
                        } else {
                            assert(rect_covers(rs@[n], i, j));
                        }
                    }
                    assert forall|k1: int, k2: int, i: int, j: int|
                        0 <= k1 < k2 < rs@.len() implies !(#[trigger] rect_covers(rs@[k1], i, j)
                        && #[trigger] rect_covers(rs@[k2], i, j)) by {
                        if k2 < n {
                            assert(rs@[k1] == rs0[k1] && rs@[k2] == rs0[k2]);
                        } else if k2 == n && rect_covers(rs@[k1], i, j) && rect_covers(
                            rs@[k2],
                            i,
                            j,
                        ) {
                            assert(rect_covers(rs0[k1], i, j));
                            assert(vis0.filled(i, j));
                            assert(!vis0.filled(i, j));
                        }
                    }
                }
            }
            x = x + 1;
        }
        y = y + 1;
    }
    rs
}

/// The scale from grid cells to output pixels in the exported text.
pub const PIXEL_SIZE: usize = 8;

/// True when some layer among the first `n` is visible and fills
/// `(i, j)`.
pub open spec fn visible_filled_upto(layers: Seq<Layer>, n: int, i: int, j: int) -> bool {
    exists|k: int|
        0 <= k < n && k < layers.len() && (#[trigger] layers[k]).visible && layers[k].grid.filled(
            i,
            j,
        )
}

impl CanvasState {
    /// True when some visible layer fills `(i, j)`: the composited
    /// picture the canvas shows and exports.
    pub open spec fn composite_filled(self, i: int, j: int) -> bool {
        visible_filled_upto(self.layers@, self.layers@.len() as int, i, j)
    }

    /// The composite bitmap: one grid holding every visible layer's
    /// filled cells.  Invisible layers are excluded.
    pub fn flatten(&self) -> (g: Grid)
        requires
            self.wf(),
        ensures
            g.wf(),
            forall|i: int, j: int| #[trigger] g.filled(i, j) == self.composite_filled(i, j),
    {
        let mut g = Grid::new();
        let mut k: usize = 0;
        while k < self.layers.len()
            invariant
                self.wf(),
                g.wf(),
                k <= self.layers@.len(),
                forall|i: int, j: int|
                    #[trigger] g.filled(i, j) == visible_filled_upto(self.layers@, k as int, i, j),
            decreases self.layers@.len() - k,
        {
            let ghost g0 = g;
            if self.layers[k].visible {
                let layer_grid = &self.layers[k].grid;
                proof {
                    assert(*layer_grid == self.layers@[k as int].grid);
                }
                g.merge(layer_grid);
                proof {
                    assert(forall|i: int, j: int|
                        #[trigger] g.filled(i, j) == (g0.filled(i, j)
                            || self.layers@[k as int].grid.filled(i, j)));
                    assert forall|i: int, j: int| #[trigger] g.filled(i, j) implies
                        visible_filled_upto(self.layers@, k + 1, i, j) by {
                        if g0.filled(i, j) {
                            assert(visible_filled_upto(self.layers@, k as int, i, j));
                            let m = choose|m: int|
                                0 <= m < k && m < self.layers@.len()
                                    && (#[trigger] self.layers@[m]).visible
                                    && self.layers@[m].grid.filled(i, j);
                            assert(0 <= m < k + 1 && self.layers@[m].visible
                                && self.layers@[m].grid.filled(i, j));
                        } else {
                            assert(self.layers@[k as int].visible
                                && self.layers@[k as int].grid.filled(i, j));
                        }
                    }
                    assert forall|i: int, j: int| #![trigger g.filled(i, j)]
                        visible_filled_upto(self.layers@, k + 1, i, j) implies g.filled(i, j) by {
                        let m = choose|m: int|
                            0 <= m < k + 1 && m < self.layers@.len()
                                && (#[trigger] self.layers@[m]).visible
                                && self.layers@[m].grid.filled(i, j);
                        if m < k {
                            assert(visible_filled_upto(self.layers@, k as int, i, j));
                            assert(g0.filled(i, j));
                        } else {
                            assert(self.layers@[k as int].grid.filled(i, j));
                        }
                    }
                }
            } else {
                proof {
                    assert forall|i: int, j: int| #[trigger] g.filled(i, j) implies
                        visible_filled_upto(self.layers@, k + 1, i, j) by {
                        assert(visible_filled_upto(self.layers@, k as int, i, j));
                        let m = choose|m: int|
                            0 <= m < k && m < self.layers@.len()
                                && (#[trigger] self.layers@[m]).visible
                                && self.layers@[m].grid.filled(i, j);
                        assert(0 <= m < k + 1 && self.layers@[m].visible
                            && self.layers@[m].grid.filled(i, j));
                    }
                    assert forall|i: int, j: int| #![trigger g.filled(i, j)]
                        visible_filled_upto(self.layers@, k + 1, i, j) implies g.filled(i, j) by {
                        let m = choose|m: int|
                            0 <= m < k + 1 && m < self.layers@.len()
                                && (#[trigger] self.layers@[m]).visible
                                && self.layers@[m].grid.filled(i, j);
                        assert(m < k);
                        assert(visible_filled_upto(self.layers@, k as int, i, j));
                    }
                }
            }
            k = k + 1;
        }
        g
    }
}

/// One line of the exported routine: the rectangle's coordinates
/// scaled by the pixel size, each with one fractional decimal digit.
pub open spec fn rect_line(r: ExportRect) -> Seq<char> {
    "    draw_rectangle(x_offset + "@ + dec_digits((r.x * PIXEL_SIZE) as nat) + ".0, y_offset + "@
        + dec_digits((r.y * PIXEL_SIZE) as nat) + ".0, "@ + dec_digits((r.w * PIXEL_SIZE) as nat)
        + ".0, "@ + dec_digits((r.h * PIXEL_SIZE) as nat) + ".0, BLUE);\n"@
}

/// The lines of the exported routine, one per rectangle, in order.
pub open spec fn rect_lines(rs: Seq<ExportRect>) -> Seq<char>
    decreases rs.len(),
{
    if rs.len() == 0 {
        Seq::empty()
    } else {
        rect_lines(rs.drop_last()) + rect_line(rs.last())
    }
}

/// The whole exported routine: a fixed function-signature header, one
/// line per rectangle, and the closing brace.
pub open spec fn export_text(rs: Seq<ExportRect>) -> Seq<char> {
    "fn draw_exported_picture(x_offset: f32, y_offset: f32) {\n"@ + rect_lines(rs)
        + "}\n"@
}

/// Serializes the rectangles as the textual drawing routine.
pub fn render_export(rs: &Vec<ExportRect>) -> (s: String)
    requires
        rects_in_grid(rs@),
    ensures
        s@ == export_text(rs@),
{
    let mut s = String::from_str("fn draw_exported_picture(x_offset: f32, y_offset: f32) {\n");
    let mut k: usize = 0;
    while k < rs.len()
        invariant
            rects_in_grid(rs@),
            k <= rs@.len(),
            s@ == "fn draw_exported_picture(x_offset: f32, y_offset: f32) {\n"@ + rect_lines(
                rs@.subrange(0, k as int),
            ),
        decreases rs@.len() - k,
    {
        let r = rs[k];
        s.append("    draw_rectangle(x_offset + ");
        push_decimal(&mut s, (r.x * PIXEL_SIZE) as u64);
        s.append(".0, y_offset + ");
        push_decimal(&mut s, (r.y * PIXEL_SIZE) as u64);
        s.append(".0, ");
        push_decimal(&mut s, (r.w * PIXEL_SIZE) as u64);
        s.append(".0, ");
        push_decimal(&mut s, (r.h * PIXEL_SIZE) as u64);
        s.append(".0, BLUE);\n");
        proof {
            let pre = rs@.subrange(0, k as int);
            let cur = rs@.subrange(0, k + 1);
            assert(cur.drop_last() =~= pre);
            assert(cur.last() == rs@[k as int]);
            assert(s@ =~= "fn draw_exported_picture(x_offset: f32, y_offset: f32) {\n"@
                + rect_lines(cur));
        }
        k = k + 1;
    }
    s.append("}\n");
    proof {
        assert(rs@.subrange(0, rs@.len() as int) =~= rs@);
        assert(s@ =~= export_text(rs@));
    }
    s
}

/// Decomposes the bitmap and serializes the result in one step: the
/// text of some exact partition of the filled set.
pub fn export_picture(g: &Grid) -> (s: String)
    requires
        g.wf(),
    ensures
        exists|rs: Seq<ExportRect>|
            #[trigger] rects_exact(*g, rs) && s@ == export_text(rs),
{
    let rs = export_rects(g);
    let s = render_export(&rs);
    proof {
        assert(rects_exact(*g, rs@) && s@ == export_text(rs@));
    }
    s
}

} // verus!
