//! Shape rasterization: pure functions mapping a drawing gesture to
//! the sequence of grid cells it touches.
//!
//! Every shape tool produces a point sequence through these functions,
//! both when a stroke is committed and when a live preview is drawn,
//! so preview and commit are guaranteed to agree.  Points may lie
//! outside the grid; the grid clips them on write.

use vstd::prelude::*;

verus! {

/// Drag anchors accepted by the rasterizers.  The limit exists only
/// so the internal arithmetic provably fits in 64 bits; the canvas
/// itself is 320x240, far below it.
pub const COORD_LIMIT: i64 = 0x10_0000;

/// Rasterized points stay within this bound when the anchors respect
/// `COORD_LIMIT`; line endpoints up to this bound are accepted so the
/// hexagon tool can rasterize its (already rounded) vertices.
pub const SEGMENT_LIMIT: i64 = 0x40_0000;

/// Translates algorithm-space points into grid coordinates: `(u, v)`
/// becomes `(bx + u * xs, by + v * ys)`.
pub open spec fn coord_map(s: Seq<(int, int)>, bx: int, by: int, xs: int, ys: int) -> Seq<
    (int, int),
> {
    s.map_values(|p: (int, int)| (bx + p.0 * xs, by + p.1 * ys))
}

/// The steps of the error-accumulator line algorithm in progress
/// space: `a` and `b` are the absolute coordinate deltas, `(u, v)`
/// counts the steps taken along each axis, and `err` is the
/// accumulator (decremented by `b` on a `u`-step, incremented by `a`
/// on a `v`-step).  Both endpoints are included.
pub open spec fn bres_steps(a: int, b: int, u: int, v: int, err: int) -> Seq<(int, int)>
    decreases a + b - u - v,
{
    if 0 <= u <= a && 0 <= v <= b {
        if u == a && v == b {
            seq![(u, v)]
        } else {
            let e2 = 2 * err;
            let step_u = e2 >= -b && u < a;
            let step_v = e2 <= a && v < b;
            if step_u || step_v {
                let u2 = if step_u {
                    u + 1
                } else {
                    u
                };
                let v2 = if step_v {
                    v + 1
                } else {
                    v
                };
                let err2 = err + (if step_u {
                    -b
                } else {
                    0
                }) + (if step_v {
                    a
                } else {
                    0
                });
                seq![(u, v)] + bres_steps(a, b, u2, v2, err2)
            } else {
                seq![(u, v)]
            }
        }
    } else {
        Seq::empty()
    }
}

/// The cells of the 8-connected line from `(sx, sy)` to `(ex, ey)`,
/// inclusive of both endpoints, in rasterization order.
pub open spec fn line_points(sx: int, sy: int, ex: int, ey: int) -> Seq<(int, int)> {
    let a = if ex >= sx {
        ex - sx
    } else {
        sx - ex
    };
    let b = if ey >= sy {
        ey - sy
    } else {
        sy - ey
    };
    let xs: int = if sx < ex {
        1
    } else {
        -1
    };
    let ys: int = if sy < ey {
        1
    } else {
        -1
    };
    coord_map(bres_steps(a, b, 0, 0, a - b), sx, sy, xs, ys)
}

/// Appends the cells of the 8-connected line from `(sx, sy)` to
/// `(ex, ey)` to `out`, both endpoints included, in rasterization
/// order.
pub fn collect_line_pixels(sx: i64, sy: i64, ex: i64, ey: i64, out: &mut Vec<(i64, i64)>)
    requires
        -SEGMENT_LIMIT <= sx <= SEGMENT_LIMIT,
        -SEGMENT_LIMIT <= sy <= SEGMENT_LIMIT,
        -SEGMENT_LIMIT <= ex <= SEGMENT_LIMIT,
        -SEGMENT_LIMIT <= ey <= SEGMENT_LIMIT,
    ensures
        crate::grid::pts_view(final(out)@) == crate::grid::pts_view(old(out)@) + line_points(
            sx as int,
            sy as int,
            ex as int,
            ey as int,
        ),
{
    let a: i64 = if ex >= sx {
        ex - sx
    } else {
        sx - ex
    };
    let b: i64 = if ey >= sy {
        ey - sy
    } else {
        sy - ey
    };
    let xs: i64 = if sx < ex {
        1
    } else {
        -1
    };
    let ys: i64 = if sy < ey {
        1
    } else {
        -1
    };
    let mut err: i64 = a - b;
    let mut x: i64 = sx;
    let mut y: i64 = sy;
    let ghost mut u: int = 0;
    let ghost mut v: int = 0;
    let ghost out0 = out@;
    proof {
        assert(a * 1 == a && b * 1 == b && a * -1 == -a && b * -1 == -b && u * xs == 0 && v * ys
            == 0) by (nonlinear_arith)
            requires
                u == 0 && v == 0,
        ;
        assert(a * (v + 1) - b * (u + 1) == a - b) by (nonlinear_arith)
            requires
                u == 0 && v == 0,
        ;
    }
    loop
        invariant_except_break
            0 <= a <= 2 * SEGMENT_LIMIT,
            0 <= b <= 2 * SEGMENT_LIMIT,
            xs == 1 || xs == -1,
            ys == 1 || ys == -1,
            ex == sx + a * xs,
            ey == sy + b * ys,
            -SEGMENT_LIMIT <= sx <= SEGMENT_LIMIT,
            -SEGMENT_LIMIT <= sy <= SEGMENT_LIMIT,
            0 <= u <= a,
            0 <= v <= b,
            x == sx + u * xs,
            y == sy + v * ys,
            err == a * (v + 1) - b * (u + 1),
            crate::grid::pts_view(out@) + coord_map(
                bres_steps(a as int, b as int, u, v, err as int),
                sx as int,
                sy as int,
                xs as int,
                ys as int,
            ) == crate::grid::pts_view(out0) + line_points(sx as int, sy as int, ex as int, ey as int),
        ensures
            crate::grid::pts_view(out@) == crate::grid::pts_view(out0) + line_points(
                sx as int,
                sy as int,
                ex as int,
                ey as int,
            ),
        decreases a + b - u - v,
    {
        let ghost pre = out@;
        out.push((x, y));
        proof {
            assert(crate::grid::pts_view(out@) =~= crate::grid::pts_view(pre) + seq![
                (x as int, y as int),
            ]);
        }
        if x == ex && y == ey {
            proof {
                assert(u * xs == a * xs && v * ys == b * ys);
                assert(u == a) by (nonlinear_arith)
                    requires
                        u * xs == a * xs,
                        xs == 1 || xs == -1,
                ;
                assert(v == b) by (nonlinear_arith)
                    requires
                        v * ys == b * ys,
                        ys == 1 || ys == -1,
                ;
                assert(bres_steps(a as int, b as int, u, v, err as int) =~= seq![(u, v)]);
                assert(coord_map(seq![(u, v)], sx as int, sy as int, xs as int, ys as int) =~= seq![
                    (x as int, y as int),
                ]);
            }
            break ;
        }
        proof {
            if u == a && v == b {
                assert(x == ex && y == ey);
            }
            // the accumulator never steps past an endpoint
            if u == a && v < b {
                assert(err == a * (v + 1) - b * (a + 1));
                assert(err <= -b) by (nonlinear_arith)
                    requires
                        err == a * (v + 1) - b * (a + 1),
                        v + 1 <= b,
                        0 <= a,
                        0 <= b,
                ;
                assert(2 * err < -b);
            }
            if v == b && u < a {
                assert(err >= a) by (nonlinear_arith)
                    requires
                        err == a * (b + 1) - b * (u + 1),
                        u + 1 <= a,
                        0 <= a,
                        0 <= b,
                ;
                assert(2 * err > a);
            }
        }
        let ghost pre_u = u;
        let ghost pre_v = v;
        let ghost pre_err = err as int;
        let ghost pre_x = x as int;
        let ghost pre_y = y as int;
        proof {
            assert(-0x800_0000_0000_0000 <= err <= 0x800_0000_0000_0000) by (nonlinear_arith)
                requires
                    err == a * (v + 1) - b * (u + 1),
                    0 <= u <= a <= 0x80_0000,
                    0 <= v <= b <= 0x80_0000,
            ;
        }
        let e2: i64 = 2 * err;
        if e2 >= -b {
            err = err - b;
            x = x + xs;
            proof {
                u = u + 1;
                assert(x == sx + u * xs) by (nonlinear_arith)
                    requires
                        x == sx + (u - 1) * xs + xs,
                ;
            }
        }
        if e2 <= a {
            err = err + a;
            y = y + ys;
            proof {
                v = v + 1;
                assert(y == sy + v * ys) by (nonlinear_arith)
                    requires
                        y == sy + (v - 1) * ys + ys,
                ;
            }
        }
        proof {
            assert(err == a * (v + 1) - b * (u + 1)) by (nonlinear_arith)
                requires
                    pre_err == a * (pre_v + 1) - b * (pre_u + 1),
                    u == pre_u + (if 2 * pre_err >= -b {
                        1int
                    } else {
                        0int
                    }),
                    v == pre_v + (if 2 * pre_err <= a {
                        1int
                    } else {
                        0int
                    }),
                    err == pre_err + (if 2 * pre_err >= -b {
                        -b
                    } else {
                        0int
                    }) + (if 2 * pre_err <= a {
                        a as int
                    } else {
                        0int
                    }),
            ;
            let tail = bres_steps(a as int, b as int, u, v, err as int);
            assert(bres_steps(a as int, b as int, pre_u, pre_v, pre_err) =~= seq![(pre_u, pre_v)]
                + tail);
            assert(coord_map(
                seq![(pre_u, pre_v)] + tail,
                sx as int,
                sy as int,
                xs as int,
                ys as int,
            ) =~= seq![(pre_x, pre_y)] + coord_map(
                tail,
                sx as int,
                sy as int,
                xs as int,
                ys as int,
            )) by {
                assert(sx + pre_u * xs == pre_x && sy + pre_v * ys == pre_y);
            }
            assert(crate::grid::pts_view(out@) + coord_map(
                tail,
                sx as int,
                sy as int,
                xs as int,
                ys as int,
            ) =~= crate::grid::pts_view(out0) + line_points(
                sx as int,
                sy as int,
                ex as int,
                ey as int,
            ));
        }
    }
}

/// The eight symmetric offsets the midpoint circle algorithm emits in
/// one iteration, in emission order.
pub open spec fn octet(x: int, y: int) -> Seq<(int, int)> {
    seq![(x, y), (y, x), (-y, x), (-x, y), (-x, -y), (-y, -x), (y, -x), (x, -y)]
}

/// The offsets of the midpoint circle algorithm from state
/// `(x, y, err)`: eight reflected points per iteration while
/// `y <= x`, with the classic error update.
pub open spec fn circle_steps(x: int, y: int, err: int) -> Seq<(int, int)>
    decreases x - y + 2,
{
    if y <= x {
        let y2 = y + 1;
        if err <= 0 {
            octet(x, y) + circle_steps(x, y2, err + 2 * y2 + 1)
        } else {
            let x2 = x - 1;
            octet(x, y) + circle_steps(x2, y2, err - (2 * x2 + 1))
        }
    } else {
        Seq::empty()
    }
}

/// The drag radius: the larger axis magnitude of `end - start`, not
/// the Euclidean distance.
pub open spec fn drag_radius(sx: int, sy: int, ex: int, ey: int) -> int {
    let rx = if ex >= sx {
        ex - sx
    } else {
        sx - ex
    };
    let ry = if ey >= sy {
        ey - sy
    } else {
        sy - ey
    };
    if rx >= ry {
        rx
    } else {
        ry
    }
}

/// The cells of the midpoint circle centered at `(sx, sy)` whose
/// radius is the drag radius of `(ex, ey)`, in emission order.
pub open spec fn circle_points(sx: int, sy: int, ex: int, ey: int) -> Seq<(int, int)> {
    coord_map(circle_steps(drag_radius(sx, sy, ex, ey), 0, 0), sx, sy, 1, 1)
}

/// Appends the cells of the circle tool's gesture from `(sx, sy)` to
/// `(ex, ey)` to `out`: a midpoint circle with 8-way symmetry
/// centered at the drag start.
pub fn collect_circle_pixels(sx: i64, sy: i64, ex: i64, ey: i64, out: &mut Vec<(i64, i64)>)
    requires
        -COORD_LIMIT <= sx <= COORD_LIMIT,
        -COORD_LIMIT <= sy <= COORD_LIMIT,
        -COORD_LIMIT <= ex <= COORD_LIMIT,
        -COORD_LIMIT <= ey <= COORD_LIMIT,
    ensures
        crate::grid::pts_view(final(out)@) == crate::grid::pts_view(old(out)@) + circle_points(
            sx as int,
            sy as int,
            ex as int,
            ey as int,
        ),
{
    let rx: i64 = if ex >= sx {
        ex - sx
    } else {
        sx - ex
    };
    let ry: i64 = if ey >= sy {
        ey - sy
    } else {
        sy - ey
    };
    let r: i64 = if rx >= ry {
        rx
    } else {
        ry
    };
    let mut x: i64 = r;
    let mut y: i64 = 0;
    let mut err: i64 = 0;
    let ghost out0 = out@;
    while y <= x
        invariant
            0 <= r <= 2 * COORD_LIMIT,
            0 <= y <= x + 2,
            x <= r,
            -2 * x <= err <= 2 * y + 1,
            -COORD_LIMIT <= sx <= COORD_LIMIT,
            -COORD_LIMIT <= sy <= COORD_LIMIT,
            r == drag_radius(sx as int, sy as int, ex as int, ey as int),
            crate::grid::pts_view(out@) + coord_map(
                circle_steps(x as int, y as int, err as int),
                sx as int,
                sy as int,
                1,
                1,
            ) == crate::grid::pts_view(out0) + circle_points(
                sx as int,
                sy as int,
                ex as int,
                ey as int,
            ),
        decreases x - y + 2,
    {
        let ghost pre = out@;
        let ghost pre_x = x as int;
        let ghost pre_y = y as int;
        let ghost pre_err = err as int;
        out.push((sx + x, sy + y));
        out.push((sx + y, sy + x));
        out.push((sx - y, sy + x));
        out.push((sx - x, sy + y));
        out.push((sx - x, sy - y));
        out.push((sx - y, sy - x));
        out.push((sx + y, sy - x));
        out.push((sx + x, sy - y));
        proof {
            assert(crate::grid::pts_view(out@) =~= crate::grid::pts_view(pre) + coord_map(
                octet(pre_x, pre_y),
                sx as int,
                sy as int,
                1,
                1,
            ));
        }
        y = y + 1;
        if err <= 0 {
            err = err + 2 * y + 1;
        } else {
            x = x - 1;
            err = err - (2 * x + 1);
        }
        proof {
            let tail = circle_steps(x as int, y as int, err as int);
            assert(circle_steps(pre_x, pre_y, pre_err) =~= octet(pre_x, pre_y) + tail);
            assert(coord_map(octet(pre_x, pre_y) + tail, sx as int, sy as int, 1, 1) =~= coord_map(
                octet(pre_x, pre_y),
                sx as int,
                sy as int,
                1,
                1,
            ) + coord_map(tail, sx as int, sy as int, 1, 1));
            assert(crate::grid::pts_view(out@) + coord_map(tail, sx as int, sy as int, 1, 1)
                =~= crate::grid::pts_view(out0) + circle_points(
                sx as int,
                sy as int,
                ex as int,
                ey as int,
            ));
        }
    }
    proof {
        assert(circle_steps(x as int, y as int, err as int) =~= Seq::<(int, int)>::empty());
        assert(coord_map(Seq::<(int, int)>::empty(), sx as int, sy as int, 1, 1) =~= Seq::<
            (int, int),
        >::empty());
        assert(crate::grid::pts_view(out@) + Seq::<(int, int)>::empty() =~= crate::grid::pts_view(
            out@,
        ));
    }
}

/// The top and bottom outline cells for columns `x` through `x1`: the
/// pair `(x, y0)`, `(x, y1)` for each column in order.
pub open spec fn rect_cols(x: int, x1: int, y0: int, y1: int) -> Seq<(int, int)>
    decreases x1 - x + 1,
{
    if x <= x1 {
        seq![(x, y0), (x, y1)] + rect_cols(x + 1, x1, y0, y1)
    } else {
        Seq::empty()
    }
}

/// The left and right outline cells for rows `y` through `y1`: the
/// pair `(x0, y)`, `(x1, y)` for each row in order.
pub open spec fn rect_rows(y: int, y1: int, x0: int, x1: int) -> Seq<(int, int)>
    decreases y1 - y + 1,
{
    if y <= y1 {
        seq![(x0, y), (x1, y)] + rect_rows(y + 1, y1, x0, x1)
    } else {
        Seq::empty()
    }
}

/// Every point the midpoint circle algorithm emits comes with its
/// mirror images across both axes: from any state, the emitted set is
/// closed under negating either offset.
proof fn lemma_circle_steps_mirror(x: int, y: int, err: int, dx: int, dy: int)
    ensures
        circle_steps(x, y, err).contains((dx, dy)) ==> circle_steps(x, y, err).contains((-dx, dy))
            && circle_steps(x, y, err).contains((dx, -dy)),
    decreases x - y + 2,
{
    if y <= x {
        let oct = octet(x, y);
        let y2 = y + 1;
        let tail = if err <= 0 {
            circle_steps(x, y2, err + 2 * y2 + 1)
        } else {
            circle_steps(x - 1, y2, err - (2 * (x - 1) + 1))
        };
        let s = circle_steps(x, y, err);
        assert(s =~= oct + tail);
        if err <= 0 {
            lemma_circle_steps_mirror(x, y2, err + 2 * y2 + 1, dx, dy);
        } else {
            lemma_circle_steps_mirror(x - 1, y2, err - (2 * (x - 1) + 1), dx, dy);
        }
        if s.contains((dx, dy)) {
            let j = choose|j: int| 0 <= j < s.len() && s[j] == (dx, dy);
            if j < 8 {
                assert(oct[0] == (x, y) && oct[1] == (y, x) && oct[2] == (-y, x) && oct[3] == (
                    -x,
                    y,
                ) && oct[4] == (-x, -y) && oct[5] == (-y, -x) && oct[6] == (y, -x) && oct[7] == (
                    x,
                    -y,
                ));
                assert(oct.contains((-dx, dy)) && oct.contains((dx, -dy))) by {
                    if j == 0 {
                        assert(oct[3] == (-dx, dy) && oct[7] == (dx, -dy));
                    } else if j == 1 {
                        assert(oct[2] == (-dx, dy) && oct[6] == (dx, -dy));
                    } else if j == 2 {
                        assert(oct[1] == (-dx, dy) && oct[5] == (dx, -dy));
                    } else if j == 3 {
                        assert(oct[0] == (-dx, dy) && oct[4] == (dx, -dy));
                    } else if j == 4 {
                        assert(oct[7] == (-dx, dy) && oct[3] == (dx, -dy));
                    } else if j == 5 {
                        assert(oct[6] == (-dx, dy) && oct[2] == (dx, -dy));
                    } else if j == 6 {
                        assert(oct[5] == (-dx, dy) && oct[1] == (dx, -dy));
                    } else {
                        assert(oct[4] == (-dx, dy) && oct[0] == (dx, -dy));
                    }
                }
                let k1 = choose|k: int| 0 <= k < 8 && oct[k] == (-dx, dy);
                let k2 = choose|k: int| 0 <= k < 8 && oct[k] == (dx, -dy);
                assert(s[k1] == (-dx, dy) && s[k2] == (dx, -dy));
            } else {
                assert(tail[j - 8] == (dx, dy));
                assert(tail.contains((dx, dy)));
                let t1 = choose|t: int| 0 <= t < tail.len() && tail[t] == (-dx, dy);
                let t2 = choose|t: int| 0 <= t < tail.len() && tail[t] == (dx, -dy);
                assert(s[8 + t1] == (-dx, dy) && s[8 + t2] == (dx, -dy));
            }
        }
    }
}

/// Membership in a translated point sequence corresponds to
/// membership of the untranslated offset.
proof fn lemma_offset_contains(s: Seq<(int, int)>, bx: int, by: int, px: int, py: int)
    ensures
        coord_map(s, bx, by, 1, 1).contains((px, py)) <==> s.contains((px - bx, py - by)),
{
    let m = coord_map(s, bx, by, 1, 1);
    if m.contains((px, py)) {
        let i = choose|i: int| 0 <= i < m.len() && m[i] == (px, py);
        assert(s[i].0 * 1 == s[i].0 && s[i].1 * 1 == s[i].1);
        assert(s[i] == (px - bx, py - by));
    }
    if s.contains((px - bx, py - by)) {
        let i = choose|i: int| 0 <= i < s.len() && s[i] == (px - bx, py - by);
        assert(s[i].0 * 1 == s[i].0 && s[i].1 * 1 == s[i].1);
        assert(m[i] == (px, py));
    }
}

/// The circle tool's point set is symmetric under reflection across
/// the horizontal and the vertical axis through its center: the cell
/// at offset `(dx, dy)` from the center is drawn exactly when the
/// cells at offsets `(-dx, dy)` and `(dx, -dy)` are.
pub proof fn lemma_circle_symmetry(sx: int, sy: int, ex: int, ey: int, dx: int, dy: int)
    ensures
        circle_points(sx, sy, ex, ey).contains((sx + dx, sy + dy)) <==> circle_points(
            sx,
            sy,
            ex,
            ey,
        ).contains((sx - dx, sy + dy)),
        circle_points(sx, sy, ex, ey).contains((sx + dx, sy + dy)) <==> circle_points(
            sx,
            sy,
            ex,
            ey,
        ).contains((sx + dx, sy - dy)),
{
    let r = drag_radius(sx, sy, ex, ey);
    let s = circle_steps(r, 0, 0);
    lemma_offset_contains(s, sx, sy, sx + dx, sy + dy);
    lemma_offset_contains(s, sx, sy, sx - dx, sy + dy);
    lemma_offset_contains(s, sx, sy, sx + dx, sy - dy);
    lemma_circle_steps_mirror(r, 0, 0, dx, dy);
    lemma_circle_steps_mirror(r, 0, 0, -dx, dy);
    lemma_circle_steps_mirror(r, 0, 0, dx, -dy);
}

/// The cells of the rectangle tool's outline for the bounding box of
/// `(sx, sy)` and `(ex, ey)`: top and bottom rows across the full
/// width, then left and right columns across the full height, in the
/// order the scan emits them.
pub open spec fn rect_points(sx: int, sy: int, ex: int, ey: int) -> Seq<(int, int)> {
    let x0 = if sx <= ex {
        sx
    } else {
        ex
    };
    let x1 = if sx <= ex {
        ex
    } else {
        sx
    };
    let y0 = if sy <= ey {
        sy
    } else {
        ey
    };
    let y1 = if sy <= ey {
        ey
    } else {
        sy
    };
    rect_cols(x0, x1, y0, y1) + rect_rows(y0, y1, x0, x1)
}

/// Appends the outline cells of the axis-aligned bounding box of
/// `(sx, sy)` and `(ex, ey)` to `out`.
pub fn collect_rect_pixels(sx: i64, sy: i64, ex: i64, ey: i64, out: &mut Vec<(i64, i64)>)
    requires
        -COORD_LIMIT <= sx <= COORD_LIMIT,
        -COORD_LIMIT <= sy <= COORD_LIMIT,
        -COORD_LIMIT <= ex <= COORD_LIMIT,
        -COORD_LIMIT <= ey <= COORD_LIMIT,
    ensures
        crate::grid::pts_view(final(out)@) == crate::grid::pts_view(old(out)@) + rect_points(
            sx as int,
            sy as int,
            ex as int,
            ey as int,
        ),
{
    let x0: i64 = if sx <= ex {
        sx
    } else {
        ex
    };
    let x1: i64 = if sx <= ex {
        ex
    } else {
        sx
    };
    let y0: i64 = if sy <= ey {
        sy
    } else {
        ey
    };
    let y1: i64 = if sy <= ey {
        ey
    } else {
        sy
    };
    let ghost rp = rect_points(sx as int, sy as int, ex as int, ey as int);
    let ghost out0 = out@;
    proof {
        assert(rp == rect_cols(x0 as int, x1 as int, y0 as int, y1 as int) + rect_rows(
            y0 as int,
            y1 as int,
            x0 as int,
            x1 as int,
        ));
    }
    let mut cx: i64 = x0;
    while cx <= x1
        invariant
            x0 <= cx <= x1 + 1,
            -COORD_LIMIT <= x0 <= x1 <= COORD_LIMIT,
            -COORD_LIMIT <= y0 <= y1 <= COORD_LIMIT,
            crate::grid::pts_view(out@) + rect_cols(cx as int, x1 as int, y0 as int, y1 as int)
                + rect_rows(y0 as int, y1 as int, x0 as int, x1 as int) == crate::grid::pts_view(
                out0,
            ) + rp,
        decreases x1 + 1 - cx,
    {
        let ghost pre = out@;
        out.push((cx, y0));
        out.push((cx, y1));
        proof {
            let tail = rect_cols(cx + 1 as int, x1 as int, y0 as int, y1 as int);
            assert(rect_cols(cx as int, x1 as int, y0 as int, y1 as int) =~= seq![
                (cx as int, y0 as int),
                (cx as int, y1 as int),
            ] + tail);
            assert(crate::grid::pts_view(out@) =~= crate::grid::pts_view(pre) + seq![
                (cx as int, y0 as int),
                (cx as int, y1 as int),
            ]);
            assert(crate::grid::pts_view(out@) + tail + rect_rows(
                y0 as int,
                y1 as int,
                x0 as int,
                x1 as int,
            ) =~= crate::grid::pts_view(pre) + rect_cols(cx as int, x1 as int, y0 as int, y1 as int)
                + rect_rows(y0 as int, y1 as int, x0 as int, x1 as int));
        }
        cx = cx + 1;
    }
    proof {
        assert(rect_cols(cx as int, x1 as int, y0 as int, y1 as int) =~= Seq::<(int, int)>::empty());
        assert(crate::grid::pts_view(out@) + Seq::<(int, int)>::empty() + rect_rows(
            y0 as int,
            y1 as int,
            x0 as int,
            x1 as int,
        ) =~= crate::grid::pts_view(out@) + rect_rows(y0 as int, y1 as int, x0 as int, x1 as int));
    }
    let mut cy: i64 = y0;
    while cy <= y1
        invariant
            y0 <= cy <= y1 + 1,
            -COORD_LIMIT <= x0 <= x1 <= COORD_LIMIT,
            -COORD_LIMIT <= y0 <= y1 <= COORD_LIMIT,
            crate::grid::pts_view(out@) + rect_rows(cy as int, y1 as int, x0 as int, x1 as int)
                == crate::grid::pts_view(out0) + rp,
        decreases y1 + 1 - cy,
    {
        let ghost pre = out@;
        out.push((x0, cy));
        out.push((x1, cy));
        proof {
            let tail = rect_rows(cy + 1 as int, y1 as int, x0 as int, x1 as int);
            assert(rect_rows(cy as int, y1 as int, x0 as int, x1 as int) =~= seq![
                (x0 as int, cy as int),
                (x1 as int, cy as int),
            ] + tail);
            assert(crate::grid::pts_view(out@) =~= crate::grid::pts_view(pre) + seq![
                (x0 as int, cy as int),
                (x1 as int, cy as int),
            ]);
            assert(crate::grid::pts_view(out@) + tail =~= crate::grid::pts_view(pre) + rect_rows(
                cy as int,
                y1 as int,
                x0 as int,
                x1 as int,
            ));
        }
        cy = cy + 1;
    }
    proof {
        assert(rect_rows(cy as int, y1 as int, x0 as int, x1 as int) =~= Seq::<(int, int)>::empty());
        assert(crate::grid::pts_view(out@) + Seq::<(int, int)>::empty() =~= crate::grid::pts_view(
            out@,
        ));
    }
}

/// Floor of the square root, defined by counting up.
pub open spec fn isqrt_spec(v: nat) -> nat
    decreases v,
{
    if v == 0 {
        0
    } else {
        let r = isqrt_spec((v - 1) as nat);
        if (r + 1) * (r + 1) <= v {
            r + 1
        } else {
            r
        }
    }
}

/// `isqrt_spec(v)` really is the floor of the square root of `v`.
pub proof fn lemma_isqrt_spec(v: nat)
    ensures
        isqrt_spec(v) * isqrt_spec(v) <= v,
        v < (isqrt_spec(v) + 1) * (isqrt_spec(v) + 1),
    decreases v,
{
    reveal_with_fuel(isqrt_spec, 2);
    if v == 0 {
        assert(isqrt_spec(v) == 0);
        assert((isqrt_spec(v) + 1) * (isqrt_spec(v) + 1) == 1) by (nonlinear_arith)
            requires
                isqrt_spec(v) == 0,
        ;
    } else {
        let r = isqrt_spec((v - 1) as nat);
        lemma_isqrt_spec((v - 1) as nat);
        assert(r * r <= v - 1 && v - 1 < (r + 1) * (r + 1));
        if (r + 1) * (r + 1) <= v {
            assert(isqrt_spec(v) == r + 1);
            assert(v < (r + 2) * (r + 2)) by (nonlinear_arith)
                requires
                    v - 1 < (r + 1) * (r + 1),
                    r >= 0,
            ;
            assert(isqrt_spec(v) * isqrt_spec(v) <= v);
            assert(v < (isqrt_spec(v) + 1) * (isqrt_spec(v) + 1));
        } else {
            assert(isqrt_spec(v) == r);
            assert(r * r <= v - 1 <= v);
            assert(isqrt_spec(v) * isqrt_spec(v) <= v);
            assert(v < (isqrt_spec(v) + 1) * (isqrt_spec(v) + 1));
        }
    }
}

/// Floor of the square root of `v`, by binary search.
fn isqrt64(v: u64) -> (r: u64)
    requires
        v <= 0x1_0000_0000_0000,
    ensures
        r as nat == isqrt_spec(v as nat),
        r * r <= v,
{
    let mut lo: u64 = 0;
    let mut hi: u64 = 0x100_0000;
    proof {
        assert(v < (0x100_0000u64 + 1) * (0x100_0000u64 + 1)) by (nonlinear_arith)
            requires
                v <= 0x1_0000_0000_0000,
        ;
    }
    while lo < hi
        invariant
            lo <= hi <= 0x100_0000,
            lo * lo <= v,
            v < (hi + 1) * (hi + 1),
        decreases hi - lo,
    {
        let mid: u64 = lo + (hi - lo + 1) / 2;
        proof {
            assert(lo < mid <= hi);
            assert(mid * mid <= 0x100_0000u64 * 0x100_0000u64) by (nonlinear_arith)
                requires
                    0 <= mid <= 0x100_0000u64,
            ;
        }
        if mid * mid <= v {
            lo = mid;
        } else {
            hi = mid - 1;
        }
    }
    proof {
        lemma_isqrt_spec(v as nat);
        let s = isqrt_spec(v as nat);
        assert(lo as nat == s) by (nonlinear_arith)
            requires
                lo * lo <= v,
                v < (lo + 1) * (lo + 1),
                s * s <= v,
                v < (s + 1) * (s + 1),
                lo >= 0,
                s >= 0,
        ;
    }
    lo
}

/// Rounds the quarter-integer `n / 4` to the nearest integer, halves
/// away from zero: the rounding a drawing gesture's real-valued
/// hexagon vertices go through.
pub open spec fn round_q4(n: int) -> int {
    if n >= 0 {
        (n + 2) / 4
    } else {
        -(((-n) + 2) / 4)
    }
}

/// Executable form of [`round_q4`].
fn round_q4_exec(n: i64) -> (r: i64)
    requires
        -0x100_0000 <= n <= 0x100_0000,
    ensures
        r as int == round_q4(n as int),
        -0x40_0001 <= r <= 0x40_0001,
{
    if n >= 0 {
        (n + 2) / 4
    } else {
        -(((-n) + 2) / 4)
    }
}

/// Half the drag diameter `m`, scaled by the sine of 60 degrees and
/// rounded to the nearest integer: `round(m * sqrt(3) / 4)`.  This is
/// the vertical offset of a regular hexagon's four middle vertices
/// when its circumradius is `m / 2`.
pub open spec fn hex_rise(m: int) -> int {
    (isqrt_spec((3 * m * m) as nat) + 2) as int / 4
}

/// The cells of the hexagon tool's gesture from `(sx, sy)` to
/// `(ex, ey)`: a regular hexagon centered at the drag start with
/// circumradius half the drag radius, first vertex at angle zero and
/// one vertex every 60 degrees, each vertex rounded to integer
/// coordinates and consecutive vertices joined by rasterized lines
/// (wrapping back to the first).
pub open spec fn hex_points(sx: int, sy: int, ex: int, ey: int) -> Seq<(int, int)> {
    let m = drag_radius(sx, sy, ex, ey);
    let g = hex_rise(m);
    let x_east = round_q4(4 * sx + 2 * m);
    let x_mid_east = round_q4(4 * sx + m);
    let x_mid_west = round_q4(4 * sx - m);
    let x_west = round_q4(4 * sx - 2 * m);
    line_points(x_east, sy, x_mid_east, sy + g) + line_points(x_mid_east, sy + g, x_mid_west, sy + g)
        + line_points(x_mid_west, sy + g, x_west, sy) + line_points(x_west, sy, x_mid_west, sy - g)
        + line_points(x_mid_west, sy - g, x_mid_east, sy - g) + line_points(
        x_mid_east,
        sy - g,
        x_east,
        sy,
    )
}

/// Appends the cells of the hexagon tool's gesture from `(sx, sy)` to
/// `(ex, ey)` to `out`.
#[verifier::rlimit(100)]
pub fn collect_hex_pixels(sx: i64, sy: i64, ex: i64, ey: i64, out: &mut Vec<(i64, i64)>)
    requires
        -COORD_LIMIT <= sx <= COORD_LIMIT,
        -COORD_LIMIT <= sy <= COORD_LIMIT,
        -COORD_LIMIT <= ex <= COORD_LIMIT,
        -COORD_LIMIT <= ey <= COORD_LIMIT,
    ensures
        crate::grid::pts_view(final(out)@) == crate::grid::pts_view(old(out)@) + hex_points(
            sx as int,
            sy as int,
            ex as int,
            ey as int,
        ),
{
    let rx: i64 = if ex >= sx {
        ex - sx
    } else {
        sx - ex
    };
    let ry: i64 = if ey >= sy {
        ey - sy
    } else {
        sy - ey
    };
    let m: i64 = if rx >= ry {
        rx
    } else {
        ry
    };
    proof {
        assert(3 * (m as u64) * (m as u64) <= 0x1800_0000_0000) by (nonlinear_arith)
            requires
                0 <= m <= 0x20_0000,
        ;
    }
    let s: u64 = isqrt64(3 * (m as u64) * (m as u64));
    proof {
        assert(s <= 2 * (m as u64)) by (nonlinear_arith)
            requires
                s * s <= 3 * (m as u64) * (m as u64),
                0 <= m,
        ;
    }
    let g: i64 = ((s + 2) / 4) as i64;
    let x_east = round_q4_exec(4 * sx + 2 * m);
    let x_mid_east = round_q4_exec(4 * sx + m);
    let x_mid_west = round_q4_exec(4 * sx - m);
    let x_west = round_q4_exec(4 * sx - 2 * m);
    let ghost b0 = crate::grid::pts_view(out@);
    let ghost l1 = line_points(x_east as int, sy as int, x_mid_east as int, sy + g);
    let ghost l2 = line_points(x_mid_east as int, sy + g, x_mid_west as int, sy + g);
    let ghost l3 = line_points(x_mid_west as int, sy + g, x_west as int, sy as int);
    let ghost l4 = line_points(x_west as int, sy as int, x_mid_west as int, sy - g);
    let ghost l5 = line_points(x_mid_west as int, sy - g, x_mid_east as int, sy - g);
    let ghost l6 = line_points(x_mid_east as int, sy - g, x_east as int, sy as int);
    proof {
        assert(g as int == hex_rise(m as int));
        assert(hex_points(sx as int, sy as int, ex as int, ey as int) == l1 + l2 + l3 + l4 + l5
            + l6);
    }
    collect_line_pixels(x_east, sy, x_mid_east, sy + g, out);
    collect_line_pixels(x_mid_east, sy + g, x_mid_west, sy + g, out);
    collect_line_pixels(x_mid_west, sy + g, x_west, sy, out);
    collect_line_pixels(x_west, sy, x_mid_west, sy - g, out);
    collect_line_pixels(x_mid_west, sy - g, x_mid_east, sy - g, out);
    collect_line_pixels(x_mid_east, sy - g, x_east, sy, out);
    proof {
        assert(crate::grid::pts_view(out@) =~= b0 + (l1 + l2 + l3 + l4 + l5 + l6));
    }
}

} // verus!
