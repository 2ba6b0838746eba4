//! Barycentric coordinates and the point-in-triangle test.
//!
//! Positions are integer pixel coordinates, so the barycentric solve is done
//! exactly: instead of the quotients `u` and `v` we work with their
//! numerators over the common denominator `dot00*dot11 - dot01^2`, and the
//! inside test compares numerators against the denominator.  A zero
//! denominator means the three corners are collinear, and the point counts
//! as outside.

use vstd::prelude::*;
use crate::triangles::Triangle;

verus! {

/// Coordinates admitted by the geometry: large enough for any viewport,
/// small enough that every product below fits in an `i64`.
pub const MAX_COORD: i64 = 8192;

/// The common denominator of the barycentric solve for the triangle
/// `(a, b, c)` with apex `a`: `dot00*dot11 - dot01^2` over the edge
/// vectors `v0 = c - a` and `v1 = b - a`.
pub open spec fn bary_denom(ax: int, ay: int, bx: int, by: int, cx: int, cy: int) -> int {
    let v0x = cx - ax;
    let v0y = cy - ay;
    let v1x = bx - ax;
    let v1y = by - ay;
    (v0x * v0x + v0y * v0y) * (v1x * v1x + v1y * v1y) - (v0x * v1x + v0y * v1y) * (v0x * v1x
        + v0y * v1y)
}

/// Numerator of the barycentric coordinate `u` (the weight toward `c`).
pub open spec fn bary_u_num(
    px: int,
    py: int,
    ax: int,
    ay: int,
    bx: int,
    by: int,
    cx: int,
    cy: int,
) -> int {
    let v0x = cx - ax;
    let v0y = cy - ay;
    let v1x = bx - ax;
    let v1y = by - ay;
    let v2x = px - ax;
    let v2y = py - ay;
    (v1x * v1x + v1y * v1y) * (v0x * v2x + v0y * v2y) - (v0x * v1x + v0y * v1y) * (v1x * v2x
        + v1y * v2y)
}

/// Numerator of the barycentric coordinate `v` (the weight toward `b`).
pub open spec fn bary_v_num(
    px: int,
    py: int,
    ax: int,
    ay: int,
    bx: int,
    by: int,
    cx: int,
    cy: int,
) -> int {
    let v0x = cx - ax;
    let v0y = cy - ay;
    let v1x = bx - ax;
    let v1y = by - ay;
    let v2x = px - ax;
    let v2y = py - ay;
    (v0x * v0x + v0y * v0y) * (v1x * v2x + v1y * v2y) - (v0x * v1x + v0y * v1y) * (v0x * v2x
        + v0y * v2y)
}

/// The cross product of the two edge vectors: zero exactly when the three
/// corners are collinear.
pub open spec fn edge_cross(ax: int, ay: int, bx: int, by: int, cx: int, cy: int) -> int {
    (cx - ax) * (by - ay) - (cy - ay) * (bx - ax)
}

/// `p` lies inside (boundary included) the triangle with corners
/// `(a, b, c)`: `u >= 0`, `v >= 0`, `u + v <= 1`, stated over numerators.
/// A degenerate (collinear) triangle contains nothing.
pub open spec fn inside_spec(
    px: int,
    py: int,
    ax: int,
    ay: int,
    bx: int,
    by: int,
    cx: int,
    cy: int,
) -> bool {
    let d = bary_denom(ax, ay, bx, by, cx, cy);
    let nu = bary_u_num(px, py, ax, ay, bx, by, cx, cy);
    let nv = bary_v_num(px, py, ax, ay, bx, by, cx, cy);
    d > 0 && nu >= 0 && nv >= 0 && nu + nv <= d
}

/// Bounds a product from the bounds of its factors.
proof fn lemma_mul_bound(x: int, y: int, bx: int, by: int)
    by (nonlinear_arith)
    requires
        -bx <= x <= bx,
        -by <= y <= by,
        0 <= bx,
        0 <= by,
    ensures
        -(bx * by) <= x * y <= bx * by,
{
}

/// The Lagrange identity in two dimensions, over plain vector components:
/// the product of the squared norms is the squared dot product plus the
/// squared cross product.
proof fn lemma_lagrange(v0x: int, v0y: int, v1x: int, v1y: int)
    ensures
        (v0x * v0x + v0y * v0y) * (v1x * v1x + v1y * v1y) - (v0x * v1x + v0y * v1y) * (v0x * v1x
            + v0y * v1y) == (v0x * v1y - v0y * v1x) * (v0x * v1y - v0y * v1x),
{
    let x0 = v0x * v0x;
    let y0 = v0y * v0y;
    let x1 = v1x * v1x;
    let y1 = v1y * v1y;
    let pp = v0x * v1x;
    let qq = v0y * v1y;
    let rr = v0x * v1y;
    let ss = v0y * v1x;
    assert(x0 * x1 == pp * pp) by (nonlinear_arith)
        requires
            x0 == v0x * v0x,
            x1 == v1x * v1x,
            pp == v0x * v1x,
    ;
    assert(x0 * y1 == rr * rr) by (nonlinear_arith)
        requires
            x0 == v0x * v0x,
            y1 == v1y * v1y,
            rr == v0x * v1y,
    ;
    assert(y0 * x1 == ss * ss) by (nonlinear_arith)
        requires
            y0 == v0y * v0y,
            x1 == v1x * v1x,
            ss == v0y * v1x,
    ;
    assert(y0 * y1 == qq * qq) by (nonlinear_arith)
        requires
            y0 == v0y * v0y,
            y1 == v1y * v1y,
            qq == v0y * v1y,
    ;
    assert(pp * qq == rr * ss) by (nonlinear_arith)
        requires
            pp == v0x * v1x,
            qq == v0y * v1y,
            rr == v0x * v1y,
            ss == v0y * v1x,
    ;
    assert((x0 + y0) * (x1 + y1) == x0 * x1 + x0 * y1 + y0 * x1 + y0 * y1) by (nonlinear_arith);
    assert((pp + qq) * (pp + qq) == pp * pp + 2 * (pp * qq) + qq * qq) by (nonlinear_arith);
    assert((rr - ss) * (rr - ss) == rr * rr - 2 * (rr * ss) + ss * ss) by (nonlinear_arith);
}

/// The denominator is the square of the edge cross product (the Lagrange
/// identity in two dimensions), hence never negative, and zero exactly for
/// collinear corners.
pub proof fn lemma_denom_is_cross_squared(ax: int, ay: int, bx: int, by: int, cx: int, cy: int)
    ensures
        bary_denom(ax, ay, bx, by, cx, cy) == edge_cross(ax, ay, bx, by, cx, cy) * edge_cross(
            ax,
            ay,
            bx,
            by,
            cx,
            cy,
        ),
{
    lemma_lagrange(cx - ax, cy - ay, bx - ax, by - ay);
    assert(edge_cross(ax, ay, bx, by, cx, cy) == (cx - ax) * (by - ay) - (cy - ay) * (bx - ax));
}

/// A nonzero integer has a positive square.
proof fn lemma_sq_pos(x: int)
    by (nonlinear_arith)
    requires
        x != 0,
    ensures
        x * x > 0,
{
}

/// Distributing two product differences over a common factor.
proof fn lemma_regroup(p: int, q: int, r: int, s: int, t: int, x: int, y: int)
    ensures
        (p * q - r * s) * x + (t * s - r * q) * y == q * (p * x - r * y) + s * (t * y - r * x),
{
    assert((p * q - r * s) * x == q * (p * x) - s * (r * x)) by (nonlinear_arith);
    assert((t * s - r * q) * y == s * (t * y) - q * (r * y)) by (nonlinear_arith);
    assert(q * (p * x - r * y) == q * (p * x) - q * (r * y)) by (nonlinear_arith);
    assert(s * (t * y - r * x) == s * (t * y) - s * (r * x)) by (nonlinear_arith);
}

/// Cramer's identity for the barycentric solve: the weighted sum of the
/// edge vectors recovers `d` times the apex-relative point.
#[verifier::rlimit(50)]
proof fn lemma_cramer(px: int, py: int, ax: int, ay: int, bx: int, by: int, cx: int, cy: int)
    ensures
        bary_u_num(px, py, ax, ay, bx, by, cx, cy) * (cx - ax) + bary_v_num(
            px,
            py,
            ax,
            ay,
            bx,
            by,
            cx,
            cy,
        ) * (bx - ax) == bary_denom(ax, ay, bx, by, cx, cy) * (px - ax),
        bary_u_num(px, py, ax, ay, bx, by, cx, cy) * (cy - ay) + bary_v_num(
            px,
            py,
            ax,
            ay,
            bx,
            by,
            cx,
            cy,
        ) * (by - ay) == bary_denom(ax, ay, bx, by, cx, cy) * (py - ay),
{
    let v0x = cx - ax;
    let v0y = cy - ay;
    let v1x = bx - ax;
    let v1y = by - ay;
    let v2x = px - ax;
    let v2y = py - ay;
    let dot00 = v0x * v0x + v0y * v0y;
    let dot01 = v0x * v1x + v0y * v1y;
    let dot02 = v0x * v2x + v0y * v2y;
    let dot11 = v1x * v1x + v1y * v1y;
    let dot12 = v1x * v2x + v1y * v2y;
    let cross = v0x * v1y - v0y * v1x;
    let nu = dot11 * dot02 - dot01 * dot12;
    let nv = dot00 * dot12 - dot01 * dot02;
    let d = dot00 * dot11 - dot01 * dot01;
    lemma_lagrange(v0x, v0y, v1x, v1y);
    assert(d == cross * cross);
    assert(dot11 * v0x - dot01 * v1x == v1y * cross) by (nonlinear_arith)
        requires
            dot11 == v1x * v1x + v1y * v1y,
            dot01 == v0x * v1x + v0y * v1y,
            cross == v0x * v1y - v0y * v1x,
    ;
    assert(dot00 * v1x - dot01 * v0x == -(v0y * cross)) by (nonlinear_arith)
        requires
            dot00 == v0x * v0x + v0y * v0y,
            dot01 == v0x * v1x + v0y * v1y,
            cross == v0x * v1y - v0y * v1x,
    ;
    assert(dot02 * v1y - dot12 * v0y == v2x * cross) by (nonlinear_arith)
        requires
            dot02 == v0x * v2x + v0y * v2y,
            dot12 == v1x * v2x + v1y * v2y,
            cross == v0x * v1y - v0y * v1x,
    ;
    lemma_regroup(dot11, dot02, dot01, dot12, dot00, v0x, v1x);
    assert(nu * v0x + nv * v1x == dot02 * (dot11 * v0x - dot01 * v1x) + dot12 * (dot00 * v1x
        - dot01 * v0x));
    assert(dot02 * (v1y * cross) + dot12 * (-(v0y * cross)) == (dot02 * v1y - dot12 * v0y)
        * cross) by (nonlinear_arith);
    assert((v2x * cross) * cross == (cross * cross) * v2x) by (nonlinear_arith);
    assert(nu * v0x + nv * v1x == d * v2x);

    assert(dot11 * v0y - dot01 * v1y == -(v1x * cross)) by (nonlinear_arith)
        requires
            dot11 == v1x * v1x + v1y * v1y,
            dot01 == v0x * v1x + v0y * v1y,
            cross == v0x * v1y - v0y * v1x,
    ;
    assert(dot00 * v1y - dot01 * v0y == v0x * cross) by (nonlinear_arith)
        requires
            dot00 == v0x * v0x + v0y * v0y,
            dot01 == v0x * v1x + v0y * v1y,
            cross == v0x * v1y - v0y * v1x,
    ;
    assert(dot12 * v0x - dot02 * v1x == v2y * cross) by (nonlinear_arith)
        requires
            dot02 == v0x * v2x + v0y * v2y,
            dot12 == v1x * v2x + v1y * v2y,
            cross == v0x * v1y - v0y * v1x,
    ;
    lemma_regroup(dot11, dot02, dot01, dot12, dot00, v0y, v1y);
    assert(nu * v0y + nv * v1y == dot02 * (dot11 * v0y - dot01 * v1y) + dot12 * (dot00 * v1y
        - dot01 * v0y));
    assert(dot02 * (-(v1x * cross)) + dot12 * (v0x * cross) == (dot12 * v0x - dot02 * v1x)
        * cross) by (nonlinear_arith);
    assert((v2y * cross) * cross == (cross * cross) * v2y) by (nonlinear_arith);
    assert(nu * v0y + nv * v1y == d * v2y);
}

pub open spec fn min3(a: int, b: int, c: int) -> int {
    if a <= b && a <= c {
        a
    } else if b <= c {
        b
    } else {
        c
    }
}

pub open spec fn max3(a: int, b: int, c: int) -> int {
    if a >= b && a >= c {
        a
    } else if b >= c {
        b
    } else {
        c
    }
}

/// A point inside a triangle lies inside the triangle's axis-aligned
/// bounding box; in particular any point beyond that box is outside.
pub proof fn lemma_inside_in_bbox(
    px: int,
    py: int,
    ax: int,
    ay: int,
    bx: int,
    by: int,
    cx: int,
    cy: int,
)
    requires
        inside_spec(px, py, ax, ay, bx, by, cx, cy),
    ensures
        min3(ax, bx, cx) <= px <= max3(ax, bx, cx),
        min3(ay, by, cy) <= py <= max3(ay, by, cy),
{
    let nu = bary_u_num(px, py, ax, ay, bx, by, cx, cy);
    let nv = bary_v_num(px, py, ax, ay, bx, by, cx, cy);
    let d = bary_denom(ax, ay, bx, by, cx, cy);
    let nw = d - nu - nv;
    lemma_cramer(px, py, ax, ay, bx, by, cx, cy);
    // d*(px - ax) == nu*(cx - ax) + nv*(bx - ax), so d*px is the convex
    // combination nw*ax + nv*bx + nu*cx; same for y.
    assert(d * px == nw * ax + nv * bx + nu * cx) by (nonlinear_arith)
        requires
            nu * (cx - ax) + nv * (bx - ax) == d * (px - ax),
            nw == d - nu - nv,
    ;
    assert(d * py == nw * ay + nv * by + nu * cy) by (nonlinear_arith)
        requires
            nu * (cy - ay) + nv * (by - ay) == d * (py - ay),
            nw == d - nu - nv,
    ;
    lemma_convex_combination_bounds(d, nw, nv, nu, px, ax, bx, cx);
    lemma_convex_combination_bounds(d, nw, nv, nu, py, ay, by, cy);
}

/// A value whose `d`-fold multiple is a nonnegative weighting of three
/// values (weights summing to `d > 0`) lies between their extremes.
proof fn lemma_convex_combination_bounds(
    d: int,
    wa: int,
    wb: int,
    wc: int,
    p: int,
    a: int,
    b: int,
    c: int,
)
    requires
        d > 0,
        wa >= 0,
        wb >= 0,
        wc >= 0,
        wa + wb + wc == d,
        d * p == wa * a + wb * b + wc * c,
    ensures
        min3(a, b, c) <= p <= max3(a, b, c),
{
    let lo = min3(a, b, c);
    let hi = max3(a, b, c);
    assert(wa * a <= wa * hi && wa * lo <= wa * a) by (nonlinear_arith)
        requires
            wa >= 0,
            lo <= a <= hi,
    ;
    assert(wb * b <= wb * hi && wb * lo <= wb * b) by (nonlinear_arith)
        requires
            wb >= 0,
            lo <= b <= hi,
    ;
    assert(wc * c <= wc * hi && wc * lo <= wc * c) by (nonlinear_arith)
        requires
            wc >= 0,
            lo <= c <= hi,
    ;
    assert((wa + wb + wc) * hi == wa * hi + wb * hi + wc * hi) by (nonlinear_arith);
    assert((wa + wb + wc) * lo == wa * lo + wb * lo + wc * lo) by (nonlinear_arith);
    assert(d * lo <= d * p <= d * hi);
    assert(lo <= p <= hi) by (nonlinear_arith)
        requires
            d > 0,
            d * lo <= d * p <= d * hi,
    ;
}

/// A point strictly beyond any side of the bounding box is not inside the
/// triangle.
pub proof fn lemma_outside_bbox_not_inside(
    px: int,
    py: int,
    ax: int,
    ay: int,
    bx: int,
    by: int,
    cx: int,
    cy: int,
)
    requires
        px < min3(ax, bx, cx) || px > max3(ax, bx, cx) || py < min3(ay, by, cy) || py > max3(
            ay,
            by,
            cy,
        ),
    ensures
        !inside_spec(px, py, ax, ay, bx, by, cx, cy),
{
    if inside_spec(px, py, ax, ay, bx, by, cx, cy) {
        lemma_inside_in_bbox(px, py, ax, ay, bx, by, cx, cy);
    }
}

/// The centroid of a non-degenerate triangle lies inside it.  Stated for
/// triangles whose vertex sums are divisible by three, so that the centroid
/// is itself a lattice point; its barycentric weights are each one third.
pub proof fn lemma_centroid_in_triangle(
    px: int,
    py: int,
    ax: int,
    ay: int,
    bx: int,
    by: int,
    cx: int,
    cy: int,
)
    requires
        3 * px == ax + bx + cx,
        3 * py == ay + by + cy,
        edge_cross(ax, ay, bx, by, cx, cy) != 0,
    ensures
        inside_spec(px, py, ax, ay, bx, by, cx, cy),
{
    let v0x = cx - ax;
    let v0y = cy - ay;
    let v1x = bx - ax;
    let v1y = by - ay;
    let v2x = px - ax;
    let v2y = py - ay;
    let dot00 = v0x * v0x + v0y * v0y;
    let dot01 = v0x * v1x + v0y * v1y;
    let dot02 = v0x * v2x + v0y * v2y;
    let dot11 = v1x * v1x + v1y * v1y;
    let dot12 = v1x * v2x + v1y * v2y;
    let cross = v0x * v1y - v0y * v1x;
    let nu = dot11 * dot02 - dot01 * dot12;
    let nv = dot00 * dot12 - dot01 * dot02;
    let d = dot00 * dot11 - dot01 * dot01;
    lemma_denom_is_cross_squared(ax, ay, bx, by, cx, cy);
    lemma_sq_pos(cross);
    assert(d > 0);
    assert(3 * v2x == v0x + v1x);
    assert(3 * v2y == v0y + v1y);
    assert(3 * dot02 == dot00 + dot01) by (nonlinear_arith)
        requires
            dot02 == v0x * v2x + v0y * v2y,
            dot00 == v0x * v0x + v0y * v0y,
            dot01 == v0x * v1x + v0y * v1y,
            3 * v2x == v0x + v1x,
            3 * v2y == v0y + v1y,
    ;
    assert(3 * dot12 == dot01 + dot11) by (nonlinear_arith)
        requires
            dot12 == v1x * v2x + v1y * v2y,
            dot11 == v1x * v1x + v1y * v1y,
            dot01 == v0x * v1x + v0y * v1y,
            3 * v2x == v0x + v1x,
            3 * v2y == v0y + v1y,
    ;
    assert(3 * nu == d && 3 * nv == d) by (nonlinear_arith)
        requires
            nu == dot11 * dot02 - dot01 * dot12,
            nv == dot00 * dot12 - dot01 * dot02,
            d == dot00 * dot11 - dot01 * dot01,
            3 * dot02 == dot00 + dot01,
            3 * dot12 == dot01 + dot11,
    ;
}

/// The exact barycentric solve: returns the numerators of `u` and `v` and
/// the common denominator for the triangle `(a, b, c)` with apex `a`.
pub fn barycentric_coordinates(
    p: (i64, i64),
    a: (i64, i64),
    b: (i64, i64),
    c: (i64, i64),
) -> (r: (i64, i64, i64))
    requires
        -MAX_COORD <= p.0 <= MAX_COORD,
        -MAX_COORD <= p.1 <= MAX_COORD,
        -MAX_COORD <= a.0 <= MAX_COORD,
        -MAX_COORD <= a.1 <= MAX_COORD,
        -MAX_COORD <= b.0 <= MAX_COORD,
        -MAX_COORD <= b.1 <= MAX_COORD,
        -MAX_COORD <= c.0 <= MAX_COORD,
        -MAX_COORD <= c.1 <= MAX_COORD,
    ensures
        r.0 == bary_u_num(p.0 as int, p.1 as int, a.0 as int, a.1 as int, b.0 as int, b.1 as int, c.0 as int, c.1 as int),
        r.1 == bary_v_num(p.0 as int, p.1 as int, a.0 as int, a.1 as int, b.0 as int, b.1 as int, c.0 as int, c.1 as int),
        r.2 == bary_denom(a.0 as int, a.1 as int, b.0 as int, b.1 as int, c.0 as int, c.1 as int),
{
    let v0x = c.0 - a.0;
    let v0y = c.1 - a.1;
    let v1x = b.0 - a.0;
    let v1y = b.1 - a.1;
    let v2x = p.0 - a.0;
    let v2y = p.1 - a.1;
    proof {
        lemma_mul_bound(v0x as int, v0x as int, 16384, 16384);
        lemma_mul_bound(v0y as int, v0y as int, 16384, 16384);
        lemma_mul_bound(v0x as int, v1x as int, 16384, 16384);
        lemma_mul_bound(v0y as int, v1y as int, 16384, 16384);
        lemma_mul_bound(v0x as int, v2x as int, 16384, 16384);
        lemma_mul_bound(v0y as int, v2y as int, 16384, 16384);
        lemma_mul_bound(v1x as int, v1x as int, 16384, 16384);
        lemma_mul_bound(v1y as int, v1y as int, 16384, 16384);
        lemma_mul_bound(v1x as int, v2x as int, 16384, 16384);
        lemma_mul_bound(v1y as int, v2y as int, 16384, 16384);
    }
    let dot00 = v0x * v0x + v0y * v0y;
    let dot01 = v0x * v1x + v0y * v1y;
    let dot02 = v0x * v2x + v0y * v2y;
    let dot11 = v1x * v1x + v1y * v1y;
    let dot12 = v1x * v2x + v1y * v2y;
    proof {
        lemma_mul_bound(dot11 as int, dot02 as int, 536870912int, 536870912int);
        lemma_mul_bound(dot01 as int, dot12 as int, 536870912int, 536870912int);
        lemma_mul_bound(dot00 as int, dot12 as int, 536870912int, 536870912int);
        lemma_mul_bound(dot01 as int, dot02 as int, 536870912int, 536870912int);
        lemma_mul_bound(dot00 as int, dot11 as int, 536870912int, 536870912int);
        lemma_mul_bound(dot01 as int, dot01 as int, 536870912int, 536870912int);
    }
    let nu = dot11 * dot02 - dot01 * dot12;
    let nv = dot00 * dot12 - dot01 * dot02;
    let d = dot00 * dot11 - dot01 * dot01;
    (nu, nv, d)
}

/// True exactly when the click lies inside the triangle (boundary
/// included), testing against the corners in the order
/// `(a, b, c) = (first, middle, last)`.
pub fn point_in_triangle(px: u32, py: u32, t: &Triangle) -> (r: bool)
    requires
        px as int <= MAX_COORD as int,
        py as int <= MAX_COORD as int,
        t.first.x as int <= MAX_COORD as int,
        t.first.y as int <= MAX_COORD as int,
        t.middle.x as int <= MAX_COORD as int,
        t.middle.y as int <= MAX_COORD as int,
        t.last.x as int <= MAX_COORD as int,
        t.last.y as int <= MAX_COORD as int,
    ensures
        r == inside_spec(
            px as int,
            py as int,
            t.first.x as int,
            t.first.y as int,
            t.middle.x as int,
            t.middle.y as int,
            t.last.x as int,
            t.last.y as int,
        ),
{
    let (nu, nv, d) = barycentric_coordinates(
        (px as i64, py as i64),
        (t.first.x as i64, t.first.y as i64),
        (t.middle.x as i64, t.middle.y as i64),
        (t.last.x as i64, t.last.y as i64),
    );
    d > 0 && nu >= 0 && nv >= 0 && nu <= d - nv
}

} // verus!
