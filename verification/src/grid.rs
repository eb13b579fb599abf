//! The fixed-size boolean bitmap that backs one drawable layer.
//!
//! Cells are addressed by `(x, y)` grid coordinates with the origin in
//! the top-left corner and stored row-major.  All writes are silently
//! clipped to the grid bounds: drag gestures routinely produce
//! coordinates outside the canvas, and those must be ignored rather
//! than rejected.

use vstd::prelude::*;

verus! {

/// Number of cells in one grid row.
pub const GRID_WIDTH: usize = 320;

/// Number of rows in a grid.
pub const GRID_HEIGHT: usize = 240;

/// Total number of cells in a grid.
pub const GRID_CELLS: usize = GRID_WIDTH * GRID_HEIGHT;

/// True when `(x, y)` lies inside the grid.
pub open spec fn in_bounds(x: int, y: int) -> bool {
    0 <= x < GRID_WIDTH && 0 <= y < GRID_HEIGHT
}

/// The mathematical view of a list of executable points.
pub open spec fn pts_view(v: Seq<(i64, i64)>) -> Seq<(int, int)> {
    v.map_values(|p: (i64, i64)| (p.0 as int, p.1 as int))
}

/// True when the point `p`, expanded to a `pen`-sized square
/// extending right and down, covers `(i, j)`.
pub open spec fn point_covers(p: (int, int), pen: int, i: int, j: int) -> bool {
    p.0 <= i < p.0 + pen && p.1 <= j < p.1 + pen
}

/// True when some point among the first `n` of `pts`, expanded to a
/// `pen`-sized square extending right and down, covers `(i, j)`.
pub open spec fn stamp_covers_upto(pts: Seq<(int, int)>, pen: int, n: int, i: int, j: int) -> bool {
    exists|k: int| 0 <= k < n && k < pts.len() && #[trigger] point_covers(pts[k], pen, i, j)
}

/// True when some point of `pts`, expanded to a `pen`-sized square
/// extending right and down, covers `(i, j)`.
pub open spec fn stamp_covers(pts: Seq<(int, int)>, pen: int, i: int, j: int) -> bool {
    stamp_covers_upto(pts, pen, pts.len() as int, i, j)
}

/// Pen stamping with pen size 1 is point rasterization: a 1-sized
/// square covers exactly its anchor cell.
pub proof fn lemma_pen_one_stamp(pts: Seq<(int, int)>, i: int, j: int)
    ensures
        stamp_covers(pts, 1, i, j) <==> pts.contains((i, j)),
{
    if stamp_covers(pts, 1, i, j) {
        let k = choose|k: int| 0 <= k < pts.len() && #[trigger] point_covers(pts[k], 1, i, j);
        assert(pts[k] == (i, j));
    }
    if pts.contains((i, j)) {
        let k = choose|k: int| 0 <= k < pts.len() && pts[k] == (i, j);
        assert(point_covers(pts[k], 1, i, j));
        assert(stamp_covers_upto(pts, 1, pts.len() as int, i, j));
    }
}

/// One layer's bitmap: a 320x240 grid of filled/empty cells.
pub struct Grid {
    cells: Vec<bool>,
}

impl View for Grid {
    type V = Seq<bool>;

    closed spec fn view(&self) -> Seq<bool> {
        self.cells@
    }
}

impl Grid {
    /// The dimensions never change after construction.
    pub open spec fn wf(self) -> bool {
        self@.len() == GRID_CELLS
    }

    /// True when the cell `(x, y)` is filled; out-of-bounds cells are
    /// never filled.
    pub open spec fn filled(self, x: int, y: int) -> bool {
        in_bounds(x, y) && self@[y * GRID_WIDTH + x]
    }

    /// A fully empty grid.
    pub fn new() -> (g: Grid)
        ensures
            g.wf(),
            forall|x: int, y: int| !g.filled(x, y),
    {
        let mut cells: Vec<bool> = Vec::new();
        while cells.len() < GRID_CELLS
            invariant
                cells@.len() <= GRID_CELLS,
                forall|i: int| 0 <= i < cells@.len() ==> !cells@[i],
            decreases GRID_CELLS - cells@.len(),
        {
            cells.push(false);
        }
        Grid { cells }
    }

    /// An independent deep copy with the same cells.
    pub fn duplicate(&self) -> (g: Grid)
        ensures
            g@ == self@,
    {
        let cells = self.cells.clone();
        proof {
            assert(cells@ =~= self.cells@);
        }
        Grid { cells }
    }

    /// Marks `(x, y)` filled; a no-op when `(x, y)` lies outside the
    /// grid, so no in-bounds cell changes on an out-of-bounds write.
    pub fn set_cell(&mut self, x: i64, y: i64)
        requires
            old(self).wf(),
        ensures
            final(self).wf(),
            forall|i: int, j: int|
                final(self).filled(i, j) == (old(self).filled(i, j) || (i == x && j == y
                    && in_bounds(x as int, y as int))),
    {
        if 0 <= x && x < GRID_WIDTH as i64 && 0 <= y && y < GRID_HEIGHT as i64 {
            let idx: usize = (y as usize) * GRID_WIDTH + (x as usize);
            self.cells[idx] = true;
            proof {
                assert forall|i: int, j: int|
                    final(self).filled(i, j) == (old(self).filled(i, j) || (i == x && j == y
                        && in_bounds(x as int, y as int))) by {
                    if in_bounds(i, j) && j * GRID_WIDTH + i == idx {
                        assert(i == x && j == y);
                    }
                }
            }
        }
    }

    /// True when the cell `(x, y)` is filled; out-of-bounds reads
    /// return false.
    pub fn is_filled(&self, x: i64, y: i64) -> (r: bool)
        requires
            self.wf(),
        ensures
            r == self.filled(x as int, y as int),
    {
        if 0 <= x && x < GRID_WIDTH as i64 && 0 <= y && y < GRID_HEIGHT as i64 {
            let idx: usize = (y as usize) * GRID_WIDTH + (x as usize);
            self.cells[idx]
        } else {
            false
        }
    }

    /// Fills the `pen`-by-`pen` block whose top-left corner is
    /// `(x, y)`: stamping extends right and down only, clipped to the
    /// grid.
    pub fn stamp(&mut self, x: i64, y: i64, pen: usize)
        requires
            old(self).wf(),
            pen >= 1,
        ensures
            final(self).wf(),
            forall|i: int, j: int|
                final(self).filled(i, j) == (old(self).filled(i, j) || (in_bounds(i, j) && x <= i
                    < x + pen && y <= j < y + pen)),
    {
        let ghost g0 = *self;
        let (ylo, yhi) = clip_range(y, pen, GRID_HEIGHT as i64);
        let (xlo, xhi) = clip_range(x, pen, GRID_WIDTH as i64);
        let mut row = ylo;
        while row < yhi
            invariant
                self.wf(),
                g0.wf(),
                ylo <= row <= yhi,
                ylo == clip_lo(y as int, GRID_HEIGHT as int),
                yhi == clip_hi(y as int, pen as int, GRID_HEIGHT as int, ylo as int),
                xlo == clip_lo(x as int, GRID_WIDTH as int),
                xhi == clip_hi(x as int, pen as int, GRID_WIDTH as int, xlo as int),
                forall|i: int, j: int|
                    self.filled(i, j) == (g0.filled(i, j) || (in_bounds(i, j) && x <= i < x + pen
                        && y <= j < y + pen && j < row)),
            decreases yhi - row,
        {
            let mut col = xlo;
            while col < xhi
                invariant
                    self.wf(),
                    g0.wf(),
                    ylo <= row < yhi,
                    xlo <= col <= xhi,
                    ylo == clip_lo(y as int, GRID_HEIGHT as int),
                    yhi == clip_hi(y as int, pen as int, GRID_HEIGHT as int, ylo as int),
                    xlo == clip_lo(x as int, GRID_WIDTH as int),
                    xhi == clip_hi(x as int, pen as int, GRID_WIDTH as int, xlo as int),
                    forall|i: int, j: int|
                        self.filled(i, j) == (g0.filled(i, j) || (in_bounds(i, j) && x <= i < x
                            + pen && y <= j < y + pen && (j < row || (j == row && i < col)))),
                decreases xhi - col,
            {
                let idx: usize = (row as usize) * GRID_WIDTH + (col as usize);
                let ghost prev = *self;
                self.cells[idx] = true;
                proof {
                    assert forall|i: int, j: int|
                        self.filled(i, j) == (prev.filled(i, j) || (i == col && j == row)) by {
                        if in_bounds(i, j) && j * GRID_WIDTH + i == idx {
                            assert(i == col && j == row);
                        }
                    }
                }
                col = col + 1;
            }
            row = row + 1;
        }
    }

    /// Adds every filled cell of `other` to this grid, leaving other
    /// cells as they are: the compositing step for one visible layer.
    pub fn merge(&mut self, other: &Grid)
        requires
            old(self).wf(),
            other.wf(),
        ensures
            final(self).wf(),
            forall|i: int, j: int|
                #[trigger] final(self).filled(i, j) == (old(self).filled(i, j) || other.filled(
                    i,
                    j,
                )),
    {
        let ghost g0 = *self;
        let mut row: usize = 0;
        while row < GRID_HEIGHT
            invariant
                self.wf(),
                g0.wf(),
                other.wf(),
                row <= GRID_HEIGHT,
                forall|i: int, j: int|
                    self.filled(i, j) == (g0.filled(i, j) || (other.filled(i, j) && j < row)),
            decreases GRID_HEIGHT - row,
        {
            let mut col: usize = 0;
            while col < GRID_WIDTH
                invariant
                    self.wf(),
                    g0.wf(),
                    other.wf(),
                    row < GRID_HEIGHT,
                    col <= GRID_WIDTH,
                    forall|i: int, j: int|
                        self.filled(i, j) == (g0.filled(i, j) || (other.filled(i, j) && (j < row
                            || (j == row && i < col)))),
                decreases GRID_WIDTH - col,
            {
                if other.is_filled(col as i64, row as i64) {
                    self.set_cell(col as i64, row as i64);
                }
                col = col + 1;
            }
            row = row + 1;
        }
    }

    /// Stamps every point in `pts` with the given pen size.
    pub fn stamp_points(&mut self, pts: &Vec<(i64, i64)>, pen: usize)
        requires
            old(self).wf(),
            pen >= 1,
        ensures
            final(self).wf(),
            forall|i: int, j: int|
                final(self).filled(i, j) == (old(self).filled(i, j) || (in_bounds(i, j)
                    && stamp_covers(pts_view(pts@), pen as int, i, j))),
    {
        let ghost g0 = *self;
        let mut k: usize = 0;
        while k < pts.len()
            invariant
                self.wf(),
                g0.wf(),
                pen >= 1,
                0 <= k <= pts@.len(),
                forall|i: int, j: int|
                    self.filled(i, j) == (g0.filled(i, j) || (in_bounds(i, j) && stamp_covers_upto(
                        pts_view(pts@), pen as int, k as int, i, j))),
            decreases pts@.len() - k,
        {
            let (px, py) = pts[k];
            let ghost prev = *self;
            self.stamp(px, py, pen);
            proof {
                assert forall|i: int, j: int|
                    self.filled(i, j) == (g0.filled(i, j) || (in_bounds(i, j) && stamp_covers_upto(
                        pts_view(pts@), pen as int, k + 1 as int, i, j))) by {
                    let pv = pts_view(pts@);
                    assert(pv[k as int] == (pts@[k as int].0 as int, pts@[k as int].1 as int));
                    if self.filled(i, j) {
                        if !g0.filled(i, j) && !stamp_covers_upto(pv, pen as int, k as int, i, j) {
                            assert(in_bounds(i, j) && px <= i < px + pen && py <= j < py + pen);
                            assert(point_covers(pv[k as int], pen as int, i, j));
                        }
                    }
                    if stamp_covers_upto(pv, pen as int, k + 1 as int, i, j) && in_bounds(i, j) {
                        let m = choose|m: int|
                            0 <= m < k + 1 && m < pv.len() && #[trigger] point_covers(
                                pv[m],
                                pen as int,
                                i,
                                j,
                            );
                        if m == k {
                            assert(self.filled(i, j));
                        } else {
                            assert(stamp_covers_upto(pv, pen as int, k as int, i, j));
                        }
                    }
                }
            }
            k = k + 1;
        }
        proof {
            assert(pts_view(pts@).len() == pts@.len());
        }
    }
}

/// Lower end of the span `[start, start + len)` clipped to
/// `[0, bound)`.
spec fn clip_lo(start: int, bound: int) -> int {
    if start < 0 {
        0
    } else if start > bound {
        bound
    } else {
        start
    }
}

/// Upper end of the span `[start, start + len)` clipped to
/// `[0, bound)`, never below the clipped lower end `lo`.
spec fn clip_hi(start: int, len: int, bound: int, lo: int) -> int {
    let e = start + len;
    if e < lo {
        lo
    } else if e > bound {
        bound
    } else {
        e
    }
}

/// The half-open range of in-bounds coordinates covered by a length-
/// `len` span starting at `start`, clipped to `[0, bound)`.
fn clip_range(start: i64, len: usize, bound: i64) -> (r: (i64, i64))
    requires
        0 < bound <= 0x10000,
    ensures
        r.0 == clip_lo(start as int, bound as int),
        r.1 == clip_hi(start as int, len as int, bound as int, r.0 as int),
{
    let lo: i64 = if start < 0 {
        0
    } else if start > bound {
        bound
    } else {
        start
    };
    let e: i128 = start as i128 + len as i128;
    let hi: i64 = if e < lo as i128 {
        lo
    } else if e > bound as i128 {
        bound
    } else {
        e as i64
    };
    (lo, hi)
}

} // verus!
