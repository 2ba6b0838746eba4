//! Line rasterization: the error-balancing integer line walk that emits the
//! pixel sequence approximating a straight segment.
//!
//! The walk keeps a signed error term; each iteration emits the current
//! pixel and advances along x when `2*err > -dy` and along y when
//! `2*err < dx`.  The proofs below pin the emitted sequence down exactly
//! (`bresenham_spec`), and show that it starts at one endpoint, ends at the
//! other, never overshoots, and has exactly `max(|dx|, |dy|) + 1` points —
//! so the point count does not depend on the direction of the segment.

use vstd::prelude::*;

verus! {

pub open spec fn abs_int(x: int) -> int {
    if x >= 0 {
        x
    } else {
        -x
    }
}

pub open spec fn max_int(a: int, b: int) -> int {
    if a >= b {
        a
    } else {
        b
    }
}

/// The stepping direction used along one axis: toward the target.
pub open spec fn step_dir(from: int, to: int) -> int {
    if from < to {
        1
    } else {
        -1
    }
}

/// One step of the walk from state `(x, y, err)`.
pub open spec fn bres_next(x: int, y: int, dx: int, dy: int, sx: int, sy: int, err: int) -> (
    int,
    int,
    int,
) {
    let e2 = 2 * err;
    let nx = if e2 > -dy {
        x + sx
    } else {
        x
    };
    let ny = if e2 < dx {
        y + sy
    } else {
        y
    };
    let nerr = err + (if e2 > -dy {
        -dy
    } else {
        0
    }) + (if e2 < dx {
        dx
    } else {
        0
    });
    (nx, ny, nerr)
}

/// The points the walk emits from state `(x, y, err)` until it reaches
/// `(x1, y1)`; the target point closes the sequence.  `fuel` bounds the
/// recursion and is irrelevant as long as it covers the remaining distance.
pub open spec fn bres_from(
    x: int,
    y: int,
    x1: int,
    y1: int,
    dx: int,
    dy: int,
    sx: int,
    sy: int,
    err: int,
    fuel: nat,
) -> Seq<(int, int)>
    decreases fuel,
{
    if (x == x1 && y == y1) || fuel == 0 {
        seq![(x1, y1)]
    } else {
        let next = bres_next(x, y, dx, dy, sx, sy, err);
        seq![(x, y)] + bres_from(
            next.0,
            next.1,
            x1,
            y1,
            dx,
            dy,
            sx,
            sy,
            next.2,
            (fuel - 1) as nat,
        )
    }
}

/// The full pixel sequence of the segment from `(x0, y0)` to `(x1, y1)`.
pub open spec fn bresenham_spec(x0: int, y0: int, x1: int, y1: int) -> Seq<(int, int)> {
    let dx = abs_int(x1 - x0);
    let dy = abs_int(y1 - y0);
    bres_from(
        x0,
        y0,
        x1,
        y1,
        dx,
        dy,
        step_dir(x0, x1),
        step_dir(y0, y1),
        dx - dy,
        (dx + dy) as nat,
    )
}

/// The walk's invariant, written over the remaining distances
/// `rx = |x1 - x|` and `ry = |y1 - y|`: the walk stays between its
/// endpoints, its error term tracks the remaining distances exactly, the
/// minor axis never falls further behind than the major axis, and the
/// error stays in the band that makes the major axis advance every step.
pub open spec fn bres_inv(
    x: int,
    y: int,
    x1: int,
    y1: int,
    dx: int,
    dy: int,
    sx: int,
    sy: int,
    err: int,
) -> bool {
    let rx = abs_int(x1 - x);
    let ry = abs_int(y1 - y);
    &&& 0 <= dx
    &&& 0 <= dy
    &&& rx <= dx
    &&& ry <= dy
    &&& (sx == 1 || sx == -1)
    &&& (sy == 1 || sy == -1)
    &&& (x < x1 ==> sx == 1)
    &&& (x > x1 ==> sx == -1)
    &&& (y < y1 ==> sy == 1)
    &&& (y > y1 ==> sy == -1)
    &&& err == dx - dy + dy * rx - dx * ry
    &&& (dx >= dy ==> ry <= rx)
    &&& (dx < dy ==> rx <= ry)
    &&& (dx > dy ==> 2 * err >= dx - 2 * dy)
    &&& (dx < dy ==> 2 * err <= 2 * dx - dy)
    &&& (dx == dy ==> err == 0)
}

/// One step of the walk preserves the invariant, moves one pixel along the
/// major axis (and possibly one along the minor axis), and never
/// overshoots.
proof fn lemma_bres_step(
    x: int,
    y: int,
    x1: int,
    y1: int,
    dx: int,
    dy: int,
    sx: int,
    sy: int,
    err: int,
)
    requires
        bres_inv(x, y, x1, y1, dx, dy, sx, sy, err),
        !(x == x1 && y == y1),
    ensures
        bres_inv(
            bres_next(x, y, dx, dy, sx, sy, err).0,
            bres_next(x, y, dx, dy, sx, sy, err).1,
            x1,
            y1,
            dx,
            dy,
            sx,
            sy,
            bres_next(x, y, dx, dy, sx, sy, err).2,
        ),
        abs_int(x1 - bres_next(x, y, dx, dy, sx, sy, err).0) + abs_int(
            y1 - bres_next(x, y, dx, dy, sx, sy, err).1,
        ) < abs_int(x1 - x) + abs_int(y1 - y),
        max_int(
            abs_int(x1 - bres_next(x, y, dx, dy, sx, sy, err).0),
            abs_int(y1 - bres_next(x, y, dx, dy, sx, sy, err).1),
        ) == max_int(abs_int(x1 - x), abs_int(y1 - y)) - 1,
{
    let rx = abs_int(x1 - x);
    let ry = abs_int(y1 - y);
    let e2 = 2 * err;
    let stepx = e2 > -dy;
    let stepy = e2 < dx;
    let next = bres_next(x, y, dx, dy, sx, sy, err);

    if dx > dy {
        // The minor axis keeps pace, so some x distance remains, and the
        // error band makes the x axis step.
        assert(rx > 0);
        assert(stepx);
        // No overshoot along y: with ry == 0 the error is at least dx.
        if ry == 0 {
            assert(dy * rx >= dy) by (nonlinear_arith)
                requires
                    dy >= 0,
                    rx >= 1,
            ;
            assert(dx * ry == 0) by (nonlinear_arith)
                requires
                    ry == 0,
            ;
            assert(err >= dx);
            assert(!stepy);
        }
        // Pace: when the remaining distances are equal the y axis steps too.
        if ry == rx {
            assert(dy * rx - dx * rx == (dx - dy) * (1 - rx) - (dx - dy)) by (nonlinear_arith);
            assert((dx - dy) * (1 - rx) <= 0) by (nonlinear_arith)
                requires
                    dx - dy >= 1,
                    1 - rx <= 0,
            ;
            assert(err <= 0);
            assert(stepy);
        }
    } else if dx < dy {
        assert(ry > 0);
        assert(stepy);
        if rx == 0 {
            assert(dx * ry >= dx) by (nonlinear_arith)
                requires
                    dx >= 0,
                    ry >= 1,
            ;
            assert(dy * rx == 0) by (nonlinear_arith)
                requires
                    rx == 0,
            ;
            assert(err <= -dy);
            assert(!stepx);
        }
        if rx == ry {
            assert(dy * ry - dx * ry == (dy - dx) * (ry - 1) + (dy - dx)) by (nonlinear_arith);
            assert((dy - dx) * (ry - 1) >= 0) by (nonlinear_arith)
                requires
                    dy - dx >= 1,
                    ry - 1 >= 0,
            ;
            assert(err >= 0);
            assert(stepx);
        }
    } else {
        // dx == dy: the error stays zero and both axes step together.
        if dx == 0 {
            assert(rx == 0 && ry == 0);
            assert(false);
        }
        assert(dy * rx - dx * ry == dx * (rx - ry)) by (nonlinear_arith)
            requires
                dx == dy,
        ;
        assert(dx * (rx - ry) == 0);
        assert(rx == ry) by (nonlinear_arith)
            requires
                dx >= 1,
                dx * (rx - ry) == 0,
        ;
        assert(rx > 0);
        assert(stepx && stepy);
    }

    // Effect of the steps on the remaining distances.
    if stepx {
        assert(rx > 0);
        if sx == 1 {
            assert(x < x1);
            assert(abs_int(x1 - (x + 1)) == rx - 1);
        } else {
            assert(x > x1);
            assert(abs_int(x1 - (x - 1)) == rx - 1);
        }
        assert(abs_int(x1 - next.0) == rx - 1);
    } else {
        assert(abs_int(x1 - next.0) == rx);
    }
    if stepy {
        assert(ry > 0);
        if sy == 1 {
            assert(y < y1);
            assert(abs_int(y1 - (y + 1)) == ry - 1);
        } else {
            assert(y > y1);
            assert(abs_int(y1 - (y - 1)) == ry - 1);
        }
        assert(abs_int(y1 - next.1) == ry - 1);
    } else {
        assert(abs_int(y1 - next.1) == ry);
    }

    // The error formula follows the new remaining distances.
    let nrx = abs_int(x1 - next.0);
    let nry = abs_int(y1 - next.1);
    assert(dy * (rx - 1) == dy * rx - dy) by (nonlinear_arith);
    assert(dx * (ry - 1) == dx * ry - dx) by (nonlinear_arith);
    assert(next.2 == dx - dy + dy * nrx - dx * nry);
}

/// The fuel argument does not matter once it covers the remaining
/// distance.
proof fn lemma_bres_from_fuel(
    x: int,
    y: int,
    x1: int,
    y1: int,
    dx: int,
    dy: int,
    sx: int,
    sy: int,
    err: int,
    f1: nat,
    f2: nat,
)
    requires
        bres_inv(x, y, x1, y1, dx, dy, sx, sy, err),
        f1 >= abs_int(x1 - x) + abs_int(y1 - y),
        f2 >= abs_int(x1 - x) + abs_int(y1 - y),
    ensures
        bres_from(x, y, x1, y1, dx, dy, sx, sy, err, f1) == bres_from(
            x,
            y,
            x1,
            y1,
            dx,
            dy,
            sx,
            sy,
            err,
            f2,
        ),
    decreases f1,
{
    if x == x1 && y == y1 {
    } else {
        lemma_bres_step(x, y, x1, y1, dx, dy, sx, sy, err);
        let next = bres_next(x, y, dx, dy, sx, sy, err);
        lemma_bres_from_fuel(
            next.0,
            next.1,
            x1,
            y1,
            dx,
            dy,
            sx,
            sy,
            next.2,
            (f1 - 1) as nat,
            (f2 - 1) as nat,
        );
    }
}

/// With enough fuel the walk's sequence starts at the current point, ends
/// at the target, and has exactly `max(rx, ry) + 1` points.
proof fn lemma_bres_from_props(
    x: int,
    y: int,
    x1: int,
    y1: int,
    dx: int,
    dy: int,
    sx: int,
    sy: int,
    err: int,
    fuel: nat,
)
    requires
        bres_inv(x, y, x1, y1, dx, dy, sx, sy, err),
        fuel >= abs_int(x1 - x) + abs_int(y1 - y),
    ensures
        bres_from(x, y, x1, y1, dx, dy, sx, sy, err, fuel).len() == max_int(
            abs_int(x1 - x),
            abs_int(y1 - y),
        ) + 1,
        bres_from(x, y, x1, y1, dx, dy, sx, sy, err, fuel)[0] == (x, y),
        bres_from(x, y, x1, y1, dx, dy, sx, sy, err, fuel).last() == (x1, y1),
    decreases fuel,
{
    let s = bres_from(x, y, x1, y1, dx, dy, sx, sy, err, fuel);
    if x == x1 && y == y1 {
        assert(s == seq![(x1, y1)]);
    } else {
        lemma_bres_step(x, y, x1, y1, dx, dy, sx, sy, err);
        let next = bres_next(x, y, dx, dy, sx, sy, err);
        lemma_bres_from_props(
            next.0,
            next.1,
            x1,
            y1,
            dx,
            dy,
            sx,
            sy,
            next.2,
            (fuel - 1) as nat,
        );
        let tail = bres_from(next.0, next.1, x1, y1, dx, dy, sx, sy, next.2, (fuel - 1) as nat);
        assert(s == seq![(x, y)] + tail);
        assert(s.last() == tail.last());
    }
}

/// The initial walk state satisfies the invariant.
proof fn lemma_bres_init(x0: int, y0: int, x1: int, y1: int)
    ensures
        bres_inv(
            x0,
            y0,
            x1,
            y1,
            abs_int(x1 - x0),
            abs_int(y1 - y0),
            step_dir(x0, x1),
            step_dir(y0, y1),
            abs_int(x1 - x0) - abs_int(y1 - y0),
        ),
{
    let dx = abs_int(x1 - x0);
    let dy = abs_int(y1 - y0);
    assert(dy * dx == dx * dy) by (nonlinear_arith);
}

/// The segment's pixel sequence starts at one endpoint, ends at the other,
/// and a degenerate segment gives the single point; the point count is
/// exactly `max(|dx|, |dy|) + 1`.
pub proof fn lemma_bresenham_props(x0: int, y0: int, x1: int, y1: int)
    ensures
        bresenham_spec(x0, y0, x1, y1).len() == max_int(abs_int(x1 - x0), abs_int(y1 - y0)) + 1,
        bresenham_spec(x0, y0, x1, y1)[0] == (x0, y0),
        bresenham_spec(x0, y0, x1, y1).last() == (x1, y1),
        x0 == x1 && y0 == y1 ==> bresenham_spec(x0, y0, x1, y1).len() == 1,
{
    let dx = abs_int(x1 - x0);
    let dy = abs_int(y1 - y0);
    lemma_bres_init(x0, y0, x1, y1);
    lemma_bres_from_props(
        x0,
        y0,
        x1,
        y1,
        dx,
        dy,
        step_dir(x0, x1),
        step_dir(y0, y1),
        dx - dy,
        (dx + dy) as nat,
    );
}

/// Swapping the endpoints leaves the point count unchanged.
pub proof fn lemma_bresenham_count_symmetric(x0: int, y0: int, x1: int, y1: int)
    ensures
        bresenham_spec(x0, y0, x1, y1).len() == bresenham_spec(x1, y1, x0, y0).len(),
{
    lemma_bresenham_props(x0, y0, x1, y1);
    lemma_bresenham_props(x1, y1, x0, y0);
}

/// The integer view of an executable point sequence.
pub open spec fn pts_view(s: Seq<(i32, i32)>) -> Seq<(int, int)> {
    s.map_values(|p: (i32, i32)| (p.0 as int, p.1 as int))
}

/// Rasterizes the segment from `(x0, y0)` to `(x1, y1)`: emits exactly the
/// pixel sequence `bresenham_spec`, which includes both endpoints and has
/// `max(|dx|, |dy|) + 1` points.
pub fn bresenham(x0: i32, y0: i32, x1: i32, y1: i32) -> (r: Vec<(i32, i32)>)
    requires
        -8192 <= x0 <= 8192,
        -8192 <= y0 <= 8192,
        -8192 <= x1 <= 8192,
        -8192 <= y1 <= 8192,
    ensures
        pts_view(r@) == bresenham_spec(x0 as int, y0 as int, x1 as int, y1 as int),
        r@.len() == max_int(
            abs_int(x1 as int - x0 as int),
            abs_int(y1 as int - y0 as int),
        ) + 1,
        r@[0] == (x0, y0),
        r@[r@.len() - 1] == (x1, y1),
        x0 == x1 && y0 == y1 ==> r@.len() == 1,
{
    let ghost gx0 = x0 as int;
    let ghost gy0 = y0 as int;
    let ghost gx1 = x1 as int;
    let ghost gy1 = y1 as int;
    let dx: i32 = if x1 >= x0 {
        x1 - x0
    } else {
        x0 - x1
    };
    let dy: i32 = if y1 >= y0 {
        y1 - y0
    } else {
        y0 - y1
    };
    let sx: i32 = if x0 < x1 {
        1
    } else {
        -1
    };
    let sy: i32 = if y0 < y1 {
        1
    } else {
        -1
    };
    let mut x = x0;
    let mut y = y0;
    let mut err: i32 = dx - dy;
    let mut r: Vec<(i32, i32)> = Vec::new();
    proof {
        lemma_bres_init(gx0, gy0, gx1, gy1);
        assert(pts_view(r@) + bresenham_spec(gx0, gy0, gx1, gy1) =~= bresenham_spec(
            gx0,
            gy0,
            gx1,
            gy1,
        ));
    }
    while x != x1 || y != y1
        invariant
            -8192 <= x1 <= 8192,
            -8192 <= y1 <= 8192,
            0 <= dx <= 16384,
            0 <= dy <= 16384,
            dx as int == abs_int(gx1 - gx0),
            dy as int == abs_int(gy1 - gy0),
            sx as int == step_dir(gx0, gx1),
            sy as int == step_dir(gy0, gy1),
            gx1 == x1 as int,
            gy1 == y1 as int,
            gx0 == x0 as int,
            gy0 == y0 as int,
            bres_inv(
                x as int,
                y as int,
                gx1,
                gy1,
                dx as int,
                dy as int,
                sx as int,
                sy as int,
                err as int,
            ),
            bresenham_spec(gx0, gy0, gx1, gy1) == pts_view(r@) + bres_from(
                x as int,
                y as int,
                gx1,
                gy1,
                dx as int,
                dy as int,
                sx as int,
                sy as int,
                err as int,
                (abs_int(gx1 - x as int) + abs_int(gy1 - y as int)) as nat,
            ),
        decreases abs_int(gx1 - x as int) + abs_int(gy1 - y as int),
    {
        let ghost gx = x as int;
        let ghost gy = y as int;
        let ghost gerr = err as int;
        let ghost rem = (abs_int(gx1 - gx) + abs_int(gy1 - gy)) as nat;
        let ghost r0 = r@;
        r.push((x, y));
        proof {
            lemma_bres_step(gx, gy, gx1, gy1, dx as int, dy as int, sx as int, sy as int, gerr);
            // Bound the error term so the doubling below cannot overflow.
            assert(dy as int * abs_int(gx1 - gx) <= 16384 * 16384) by (nonlinear_arith)
                requires
                    0 <= dy as int <= 16384,
                    0 <= abs_int(gx1 - gx) <= 16384,
            ;
            assert(dx as int * abs_int(gy1 - gy) <= 16384 * 16384) by (nonlinear_arith)
                requires
                    0 <= dx as int <= 16384,
                    0 <= abs_int(gy1 - gy) <= 16384,
            ;
            assert(dy as int * abs_int(gx1 - gx) >= 0) by (nonlinear_arith)
                requires
                    0 <= dy as int,
                    0 <= abs_int(gx1 - gx),
            ;
            assert(dx as int * abs_int(gy1 - gy) >= 0) by (nonlinear_arith)
                requires
                    0 <= dx as int,
                    0 <= abs_int(gy1 - gy),
            ;
            assert(-0x1001_0000 <= gerr <= 0x1001_0000);
        }
        let e2: i32 = 2 * err;
        if e2 > -dy {
            err = err - dy;
            x = x + sx;
        }
        if e2 < dx {
            err = err + dx;
            y = y + sy;
        }
        proof {
            let next = bres_next(gx, gy, dx as int, dy as int, sx as int, sy as int, gerr);
            assert(x as int == next.0 && y as int == next.1 && err as int == next.2);
            let nrem = (abs_int(gx1 - next.0) + abs_int(gy1 - next.1)) as nat;
            assert(bres_from(
                gx,
                gy,
                gx1,
                gy1,
                dx as int,
                dy as int,
                sx as int,
                sy as int,
                gerr,
                rem,
            ) == seq![(gx, gy)] + bres_from(
                next.0,
                next.1,
                gx1,
                gy1,
                dx as int,
                dy as int,
                sx as int,
                sy as int,
                next.2,
                (rem - 1) as nat,
            ));
            lemma_bres_from_fuel(
                next.0,
                next.1,
                gx1,
                gy1,
                dx as int,
                dy as int,
                sx as int,
                sy as int,
                next.2,
                (rem - 1) as nat,
                nrem,
            );
            assert(pts_view(r@) =~= pts_view(r0).push((gx, gy)));
            assert(pts_view(r0) + (seq![(gx, gy)] + bres_from(
                next.0,
                next.1,
                gx1,
                gy1,
                dx as int,
                dy as int,
                sx as int,
                sy as int,
                next.2,
                (rem - 1) as nat,
            )) =~= pts_view(r@) + bres_from(
                next.0,
                next.1,
                gx1,
                gy1,
                dx as int,
                dy as int,
                sx as int,
                sy as int,
                next.2,
                (rem - 1) as nat,
            ));
        }
    }
    let ghost r1 = r@;
    r.push((x1, y1));
    proof {
        assert(bres_from(
            x as int,
            y as int,
            gx1,
            gy1,
            dx as int,
            dy as int,
            sx as int,
            sy as int,
            err as int,
            (abs_int(gx1 - x as int) + abs_int(gy1 - y as int)) as nat,
        ) == seq![(gx1, gy1)]);
        assert(pts_view(r@) =~= pts_view(r1).push((gx1, gy1)));
        assert(pts_view(r1) + seq![(gx1, gy1)] =~= pts_view(r1).push((gx1, gy1)));
        lemma_bresenham_props(gx0, gy0, gx1, gy1);
        assert(r@[0].0 as int == bresenham_spec(gx0, gy0, gx1, gy1)[0].0);
        assert(r@[0].1 as int == bresenham_spec(gx0, gy0, gx1, gy1)[0].1);
        assert(r@[r@.len() - 1].0 as int == bresenham_spec(gx0, gy0, gx1, gy1).last().0);
        assert(r@[r@.len() - 1].1 as int == bresenham_spec(gx0, gy0, gx1, gy1).last().1);
    }
    r
}

} // verus!
