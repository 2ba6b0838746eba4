//! The scanline triangle rasterizer.
//!
//! A pixel buffer is a flat RGBA byte sequence of `width * height` pixels,
//! stored top-down while logical coordinates put the origin at the bottom
//! left, so logical row `y` lives in buffer row `height - 1 - y`.  A
//! render pass draws the three edges with linearly blended colours, then
//! fills each bounding-box row between the first opaque pixel and the next
//! opaque pixel after a transparent gap, interpolating the two boundary
//! colours across the strictly interior columns.  Writes outside the
//! buffer are dropped rather than clamped, so a render never panics.

use vstd::prelude::*;
use crate::bresenham::{bresenham, bresenham_spec, pts_view};
use crate::color::{blend, blend_spec, Rgb};
use crate::geometry::{max3, min3};
use crate::triangles::Triangle;

verus! {

/// Byte index of the pixel at `(row, col)` in buffer rows.
pub open spec fn pix_index(w: int, row: int, col: int) -> int {
    (row * w + col) * 4
}

/// The RGBA write at buffer `(row, col)`, both in range.
pub open spec fn put_at(buf: Seq<u8>, w: int, row: int, col: int, c: Rgb) -> Seq<u8> {
    let i = pix_index(w, row, col);
    buf.update(i, c.r).update(i + 1, c.g).update(i + 2, c.b).update(i + 3, 255u8)
}

/// Writes a logical-coordinate pixel: flips y, drops out-of-range writes.
pub open spec fn put_pixel_spec(buf: Seq<u8>, w: int, h: int, x: int, y: int, c: Rgb) -> Seq<u8> {
    if 0 <= x < w && 0 <= y < h {
        put_at(buf, w, h - 1 - y, x, c)
    } else {
        buf
    }
}

/// The blend denominator for a point sequence: the last index, or one for
/// a single-point sequence.
pub open spec fn blend_den(n: int) -> int {
    if n >= 2 {
        n - 1
    } else {
        1
    }
}

/// Draws points `k..` of an edge's pixel sequence, colouring point `i`
/// with the blend `i / (n - 1)` of the way from `c0` to `c1`.
pub open spec fn draw_points_from(
    buf: Seq<u8>,
    w: int,
    h: int,
    pts: Seq<(int, int)>,
    c0: Rgb,
    c1: Rgb,
    k: int,
) -> Seq<u8>
    decreases pts.len() - k,
{
    if k < 0 || k >= pts.len() {
        buf
    } else {
        draw_points_from(
            put_pixel_spec(buf, w, h, pts[k].0, pts[k].1, blend_spec(c0, c1, k, blend_den(pts.len() as int))),
            w,
            h,
            pts,
            c0,
            c1,
            k + 1,
        )
    }
}

/// The colour of a triangle corner as used by the edge pass: the constant
/// edge colour when one is set, the vertex colour otherwise.
pub open spec fn edge_corner_color(t: Triangle, vertex_color: Rgb) -> Rgb {
    match t.edges_color {
        Some(ec) => ec,
        None => vertex_color,
    }
}

/// The edge pass: the three edges first->middle, middle->last,
/// last->first, in that order.
pub open spec fn edges_pass(buf: Seq<u8>, w: int, h: int, t: Triangle) -> Seq<u8> {
    let ca = edge_corner_color(t, t.first.color);
    let cb = edge_corner_color(t, t.middle.color);
    let cc = edge_corner_color(t, t.last.color);
    let e0 = bresenham_spec(t.first.x as int, t.first.y as int, t.middle.x as int, t.middle.y as int);
    let e1 = bresenham_spec(t.middle.x as int, t.middle.y as int, t.last.x as int, t.last.y as int);
    let e2 = bresenham_spec(t.last.x as int, t.last.y as int, t.first.x as int, t.first.y as int);
    let b0 = draw_points_from(buf, w, h, e0, ca, cb, 0);
    let b1 = draw_points_from(b0, w, h, e1, cb, cc, 0);
    draw_points_from(b1, w, h, e2, cc, ca, 0)
}

/// Sets one byte of the buffer; a plain update, factored out so loops can
/// speak about it.
fn put_byte(buf: &mut Vec<u8>, i: usize, v: u8)
    requires
        i < old(buf).len(),
    ensures
        final(buf)@ == old(buf)@.update(i as int, v),
{
    buf.set(i, v);
}

/// Writes one logical pixel into the buffer, dropping out-of-range
/// writes.
pub fn put_pixel(buf: &mut Vec<u8>, w: usize, h: usize, x: i32, y: i32, c: Rgb)
    requires
        old(buf).len() == w * h * 4,
        w <= 8192,
        h <= 8192,
    ensures
        final(buf)@ == put_pixel_spec(old(buf)@, w as int, h as int, x as int, y as int, c),
        final(buf).len() == old(buf).len(),
{
    if 0 <= x && x < w as i32 && 0 <= y && y < h as i32 {
        let row: usize = h - 1 - (y as usize);
        let col: usize = x as usize;
        proof {
            assert(row as int * w as int + col as int <= (h as int - 1) * w as int + (w as int
                - 1)) by (nonlinear_arith)
                requires
                    row as int <= h as int - 1,
                    col as int <= w as int - 1,
                    w as int >= 1,
            ;
            assert((h as int - 1) * w as int + w as int == h as int * w as int)
                by (nonlinear_arith);
            assert(w as int * h as int == h as int * w as int) by (nonlinear_arith);
        }
        let i: usize = (row * w + col) * 4;
        put_byte(buf, i, c.r);
        put_byte(buf, i + 1, c.g);
        put_byte(buf, i + 2, c.b);
        put_byte(buf, i + 3, 255);
    }
}

/// Draws a whole edge: every point of `pts`, colours blended from `c0` at
/// the first point to `c1` at the last.
pub fn draw_edge(buf: &mut Vec<u8>, w: usize, h: usize, pts: &Vec<(i32, i32)>, c0: Rgb, c1: Rgb)
    requires
        old(buf).len() == w * h * 4,
        w <= 8192,
        h <= 8192,
        pts.len() < 0x1000_0000,
    ensures
        final(buf)@ == draw_points_from(old(buf)@, w as int, h as int, pts_view(pts@), c0, c1, 0),
        final(buf).len() == old(buf).len(),
{
    let ghost buf0 = buf@;
    let ghost gpts = pts_view(pts@);
    let n = pts.len();
    let m: u32 = if n >= 2 {
        (n - 1) as u32
    } else {
        1
    };
    proof {
        assert(m as int == blend_den(gpts.len() as int));
    }
    let mut k: usize = 0;
    while k < n
        invariant
            n == pts.len(),
            n < 0x1000_0000,
            gpts == pts_view(pts@),
            gpts.len() == n as int,
            m as int == blend_den(gpts.len() as int),
            m >= 1,
            k <= n,
            buf.len() == w * h * 4,
            w <= 8192,
            h <= 8192,
            draw_points_from(buf0, w as int, h as int, gpts, c0, c1, 0) == draw_points_from(
                buf@,
                w as int,
                h as int,
                gpts,
                c0,
                c1,
                k as int,
            ),
        decreases n - k,
    {
        let ghost bufk = buf@;
        let p = pts[k];
        let c = blend(c0, c1, k as u32, m);
        proof {
            assert(gpts[k as int] == (p.0 as int, p.1 as int));
        }
        put_pixel(buf, w, h, p.0, p.1, c);
        proof {
            assert(draw_points_from(bufk, w as int, h as int, gpts, c0, c1, k as int)
                == draw_points_from(buf@, w as int, h as int, gpts, c0, c1, k as int + 1));
        }
        k = k + 1;
    }
}

/// The pixel at buffer `(row, col)` has been written (nonzero alpha).
pub open spec fn opaque_at(buf: Seq<u8>, w: int, row: int, col: int) -> bool {
    buf[pix_index(w, row, col) + 3] > 0
}

/// The colour stored at buffer `(row, col)`.
pub open spec fn color_at(buf: Seq<u8>, w: int, row: int, col: int) -> Rgb {
    Rgb {
        r: buf[pix_index(w, row, col)],
        g: buf[pix_index(w, row, col) + 1],
        b: buf[pix_index(w, row, col) + 2],
    }
}

/// The least column in `[j, jmax]` whose opacity matches `want`.
pub open spec fn scan_from(
    buf: Seq<u8>,
    w: int,
    row: int,
    j: int,
    jmax: int,
    want: bool,
) -> Option<int>
    decreases jmax + 1 - j,
{
    if j > jmax {
        None
    } else if opaque_at(buf, w, row, j) == want {
        Some(j)
    } else {
        scan_from(buf, w, row, j + 1, jmax, want)
    }
}

/// The span boundaries of one scanline: the first opaque pixel, then —
/// after at least one transparent pixel — the next opaque pixel.
pub open spec fn row_boundaries(buf: Seq<u8>, w: int, row: int, jmin: int, jmax: int) -> Option<
    (int, int),
> {
    match scan_from(buf, w, row, jmin, jmax, true) {
        Option::None => None,
        Option::Some(f) => match scan_from(buf, w, row, f + 1, jmax, false) {
            Option::None => None,
            Option::Some(g) => match scan_from(buf, w, row, g + 1, jmax, true) {
                Option::None => None,
                Option::Some(s) => Some((f, s)),
            },
        },
    }
}

/// Fills columns `j..s` (strictly between the boundaries `f` and `s`) of
/// one buffer row, blending from the left boundary colour to the right.
pub open spec fn fill_cols_from(
    buf: Seq<u8>,
    w: int,
    row: int,
    f: int,
    s: int,
    c0: Rgb,
    c1: Rgb,
    j: int,
) -> Seq<u8>
    decreases s - j,
{
    if j >= s {
        buf
    } else {
        fill_cols_from(
            put_at(buf, w, row, j, blend_spec(c0, c1, j - f, s - f)),
            w,
            row,
            f,
            s,
            c0,
            c1,
            j + 1,
        )
    }
}

/// One scanline of the interior fill: find the two boundaries, then
/// interpolate the boundary colours across the strictly interior columns.
/// A row without the opaque-gap-opaque pattern is left untouched.
pub open spec fn fill_row_spec(buf: Seq<u8>, w: int, row: int, jmin: int, jmax: int) -> Seq<u8> {
    match row_boundaries(buf, w, row, jmin, jmax) {
        Option::None => buf,
        Option::Some((f, s)) => fill_cols_from(
            buf,
            w,
            row,
            f,
            s,
            color_at(buf, w, row, f),
            color_at(buf, w, row, s),
            f + 1,
        ),
    }
}

/// The interior fill over the logical rows `y..=ymax`.
pub open spec fn fill_rows_from(
    buf: Seq<u8>,
    w: int,
    h: int,
    y: int,
    ymax: int,
    jmin: int,
    jmax: int,
) -> Seq<u8>
    decreases ymax + 1 - y,
{
    if y > ymax {
        buf
    } else {
        fill_rows_from(fill_row_spec(buf, w, h - 1 - y, jmin, jmax), w, h, y + 1, ymax, jmin, jmax)
    }
}

/// Index arithmetic: a pixel of an in-range row and column lies inside
/// the buffer.
proof fn lemma_pix_index_bounds(w: int, h: int, row: int, col: int)
    requires
        0 <= row < h,
        0 <= col < w,
    ensures
        0 <= pix_index(w, row, col),
        pix_index(w, row, col) + 3 < w * h * 4,
{
    assert(row * w + col <= (h - 1) * w + (w - 1)) by (nonlinear_arith)
        requires
            row <= h - 1,
            col <= w - 1,
            w >= 1,
    ;
    assert((h - 1) * w + w == h * w) by (nonlinear_arith);
    assert(w * h == h * w) by (nonlinear_arith);
    assert(row * w + col >= 0) by (nonlinear_arith)
        requires
            row >= 0,
            col >= 0,
            w >= 1,
    ;
    assert((row * w + col) * 4 + 3 < (w * h) * 4) by (nonlinear_arith)
        requires
            0 <= row * w + col,
            row * w + col < w * h,
    ;
}

/// Writes the RGBA bytes of buffer `(row, col)`.
fn set_at(buf: &mut Vec<u8>, w: usize, h: usize, row: usize, col: usize, c: Rgb)
    requires
        old(buf).len() == w * h * 4,
        row < h,
        col < w,
        w <= 8192,
        h <= 8192,
    ensures
        final(buf)@ == put_at(old(buf)@, w as int, row as int, col as int, c),
        final(buf).len() == old(buf).len(),
{
    proof {
        lemma_pix_index_bounds(w as int, h as int, row as int, col as int);
    }
    let i: usize = (row * w + col) * 4;
    put_byte(buf, i, c.r);
    put_byte(buf, i + 1, c.g);
    put_byte(buf, i + 2, c.b);
    put_byte(buf, i + 3, 255);
}

/// Reads the colour stored at buffer `(row, col)`.
fn read_color_at(buf: &Vec<u8>, w: usize, h: usize, row: usize, col: usize) -> (c: Rgb)
    requires
        buf.len() == w * h * 4,
        row < h,
        col < w,
    ensures
        c == color_at(buf@, w as int, row as int, col as int),
{
    proof {
        lemma_pix_index_bounds(w as int, h as int, row as int, col as int);
    }
    let i: usize = (row * w + col) * 4;
    Rgb { r: buf[i], g: buf[i + 1], b: buf[i + 2] }
}

/// Finds the least column in `[j0, jmax]` whose opacity matches `want`.
fn scan(buf: &Vec<u8>, w: usize, h: usize, row: usize, j0: usize, jmax: usize, want: bool) -> (r:
    Option<usize>)
    requires
        buf.len() == w * h * 4,
        row < h,
        jmax < w,
    ensures
        match r {
            Option::Some(j) => j0 <= j <= jmax && scan_from(
                buf@,
                w as int,
                row as int,
                j0 as int,
                jmax as int,
                want,
            ) == Some(j as int),
            Option::None => scan_from(
                buf@,
                w as int,
                row as int,
                j0 as int,
                jmax as int,
                want,
            ) == None::<int>,
        },
{
    let mut j = j0;
    while j <= jmax
        invariant
            buf.len() == w * h * 4,
            row < h,
            jmax < w,
            j0 <= j,
            scan_from(buf@, w as int, row as int, j0 as int, jmax as int, want) == scan_from(
                buf@,
                w as int,
                row as int,
                j as int,
                jmax as int,
                want,
            ),
        decreases jmax + 1 - j,
    {
        proof {
            lemma_pix_index_bounds(w as int, h as int, row as int, j as int);
        }
        let i: usize = (row * w + j) * 4;
        let o = buf[i + 3] > 0;
        if o == want {
            return Some(j);
        }
        j = j + 1;
    }
    None
}

/// Fills the strictly interior columns of one span: columns `f+1 .. s`,
/// blending from `c0` at the left boundary to `c1` at the right.
fn fill_cols(buf: &mut Vec<u8>, w: usize, h: usize, row: usize, f: usize, s: usize, c0: Rgb, c1: Rgb)
    requires
        old(buf).len() == w * h * 4,
        row < h,
        f < s,
        s < w,
        w <= 8192,
        h <= 8192,
    ensures
        final(buf)@ == fill_cols_from(
            old(buf)@,
            w as int,
            row as int,
            f as int,
            s as int,
            c0,
            c1,
            f as int + 1,
        ),
        final(buf).len() == old(buf).len(),
{
    let ghost buf0 = buf@;
    let den: u32 = (s - f) as u32;
    let mut j: usize = f + 1;
    while j < s
        invariant
            buf.len() == w * h * 4,
            row < h,
            f < s,
            s < w,
            w <= 8192,
            h <= 8192,
            den == (s - f) as u32,
            f < j <= s,
            fill_cols_from(buf0, w as int, row as int, f as int, s as int, c0, c1, f as int + 1)
                == fill_cols_from(
                buf@,
                w as int,
                row as int,
                f as int,
                s as int,
                c0,
                c1,
                j as int,
            ),
        decreases s - j,
    {
        let ghost bufj = buf@;
        let c = blend(c0, c1, (j - f) as u32, den);
        set_at(buf, w, h, row, j, c);
        proof {
            assert(fill_cols_from(bufj, w as int, row as int, f as int, s as int, c0, c1, j as int)
                == fill_cols_from(
                buf@,
                w as int,
                row as int,
                f as int,
                s as int,
                c0,
                c1,
                j as int + 1,
            ));
        }
        j = j + 1;
    }
}

/// Runs one scanline of the interior fill.
fn fill_row(buf: &mut Vec<u8>, w: usize, h: usize, row: usize, jmin: usize, jmax: usize)
    requires
        old(buf).len() == w * h * 4,
        row < h,
        jmax < w,
        w <= 8192,
        h <= 8192,
    ensures
        final(buf)@ == fill_row_spec(old(buf)@, w as int, row as int, jmin as int, jmax as int),
        final(buf).len() == old(buf).len(),
{
    if let Some(f) = scan(buf, w, h, row, jmin, jmax, true) {
        if let Some(g) = scan(buf, w, h, row, f + 1, jmax, false) {
            if let Some(s) = scan(buf, w, h, row, g + 1, jmax, true) {
                let c0 = read_color_at(buf, w, h, row, f);
                let c1 = read_color_at(buf, w, h, row, s);
                fill_cols(buf, w, h, row, f, s, c0, c1);
            }
        }
    }
}

/// Every coordinate of the triangle fits the geometry's range.
pub open spec fn tri_coords_bounded(t: Triangle) -> bool {
    &&& t.first.x <= 8192
    &&& t.first.y <= 8192
    &&& t.middle.x <= 8192
    &&& t.middle.y <= 8192
    &&& t.last.x <= 8192
    &&& t.last.y <= 8192
}

/// A full render pass over the given buffer: the edge pass, then the
/// interior fill over the triangle's bounding box clamped to the buffer.
pub open spec fn render_spec(buf: Seq<u8>, w: int, h: int, t: Triangle) -> Seq<u8> {
    let b1 = edges_pass(buf, w, h, t);
    let xmin = min3(t.first.x as int, t.middle.x as int, t.last.x as int);
    let xmax = max3(t.first.x as int, t.middle.x as int, t.last.x as int);
    let ymin = min3(t.first.y as int, t.middle.y as int, t.last.y as int);
    let ymax = max3(t.first.y as int, t.middle.y as int, t.last.y as int);
    let cxmax = if xmax <= w - 1 {
        xmax
    } else {
        w - 1
    };
    let cymax = if ymax <= h - 1 {
        ymax
    } else {
        h - 1
    };
    fill_rows_from(b1, w, h, ymin, cymax, xmin, cxmax)
}

/// The smaller of two values.
fn min_u32(a: u32, b: u32) -> (r: u32)
    ensures
        r == a || r == b,
        r <= a && r <= b,
{
    if a <= b {
        a
    } else {
        b
    }
}

/// The larger of two values.
fn max_u32(a: u32, b: u32) -> (r: u32)
    ensures
        r == a || r == b,
        r >= a && r >= b,
{
    if a >= b {
        a
    } else {
        b
    }
}

/// Rasterizes the triangle into the buffer: edge pass with blended (or
/// constant) edge colours, then the scanline interior fill.  Never writes
/// outside the buffer.
pub fn render(triangle: &Triangle, image: &mut Vec<u8>, width: usize, height: usize)
    requires
        old(image).len() == width * height * 4,
        1 <= width <= 8192,
        1 <= height <= 8192,
        tri_coords_bounded(*triangle),
    ensures
        final(image)@ == render_spec(old(image)@, width as int, height as int, *triangle),
        final(image).len() == old(image).len(),
{
    let t = triangle;
    let (ca, cb, cc) = match t.edges_color {
        Some(ec) => (ec, ec, ec),
        None => (t.first.color, t.middle.color, t.last.color),
    };
    let p0 = bresenham(t.first.x as i32, t.first.y as i32, t.middle.x as i32, t.middle.y as i32);
    draw_edge(image, width, height, &p0, ca, cb);
    let p1 = bresenham(t.middle.x as i32, t.middle.y as i32, t.last.x as i32, t.last.y as i32);
    draw_edge(image, width, height, &p1, cb, cc);
    let p2 = bresenham(t.last.x as i32, t.last.y as i32, t.first.x as i32, t.first.y as i32);
    draw_edge(image, width, height, &p2, cc, ca);
    proof {
        assert(image@ == edges_pass(old(image)@, width as int, height as int, *t));
    }
    let ghost buf_edges = image@;

    let xmin = min_u32(t.first.x, min_u32(t.middle.x, t.last.x));
    let xmax = max_u32(t.first.x, max_u32(t.middle.x, t.last.x));
    let ymin = min_u32(t.first.y, min_u32(t.middle.y, t.last.y));
    let ymax = max_u32(t.first.y, max_u32(t.middle.y, t.last.y));
    proof {
        assert(xmin as int == min3(t.first.x as int, t.middle.x as int, t.last.x as int));
        assert(xmax as int == max3(t.first.x as int, t.middle.x as int, t.last.x as int));
        assert(ymin as int == min3(t.first.y as int, t.middle.y as int, t.last.y as int));
        assert(ymax as int == max3(t.first.y as int, t.middle.y as int, t.last.y as int));
    }
    let cxmax = min_u32(xmax, (width - 1) as u32);
    let cymax = min_u32(ymax, (height - 1) as u32);
    let ghost gymin = ymin as int;
    let ghost gcymax = cymax as int;

    let mut y: u32 = ymin;
    while y <= cymax
        invariant
            image.len() == width * height * 4,
            1 <= width <= 8192,
            1 <= height <= 8192,
            gymin <= y as int,
            gcymax <= height - 1,
            cymax == gcymax,
            xmin <= 8192,
            cxmax as int <= width - 1,
            xmin as int <= 8192,
            fill_rows_from(
                buf_edges,
                width as int,
                height as int,
                gymin,
                gcymax,
                xmin as int,
                cxmax as int,
            ) == fill_rows_from(
                image@,
                width as int,
                height as int,
                y as int,
                gcymax,
                xmin as int,
                cxmax as int,
            ),
        decreases gcymax + 1 - y as int,
    {
        let ghost buf_y = image@;
        let row: usize = height - 1 - (y as usize);
        if xmin <= cxmax {
            fill_row(image, width, height, row, xmin as usize, cxmax as usize);
        } else {
            proof {
                assert(scan_from(
                    image@,
                    width as int,
                    row as int,
                    xmin as int,
                    cxmax as int,
                    true,
                ) == None::<int>);
                assert(image@ == fill_row_spec(
                    buf_y,
                    width as int,
                    row as int,
                    xmin as int,
                    cxmax as int,
                ));
            }
        }
        proof {
            assert(fill_rows_from(
                buf_y,
                width as int,
                height as int,
                y as int,
                gcymax,
                xmin as int,
                cxmax as int,
            ) == fill_rows_from(
                image@,
                width as int,
                height as int,
                y as int + 1,
                gcymax,
                xmin as int,
                cxmax as int,
            ));
        }
        y = y + 1;
    }
}

/// An all-transparent buffer of the given dimensions.
pub open spec fn blank_spec(w: int, h: int) -> Seq<u8> {
    Seq::new((w * h * 4) as nat, |i: int| 0u8)
}

/// Allocates the all-transparent buffer a render pass starts from.
pub fn blank_buffer(width: usize, height: usize) -> (r: Vec<u8>)
    requires
        width <= 8192,
        height <= 8192,
    ensures
        r@ == blank_spec(width as int, height as int),
        r.len() == width * height * 4,
{
    proof {
        assert(width as int * height as int <= 8192 * 8192) by (nonlinear_arith)
            requires
                width <= 8192,
                height <= 8192,
        ;
    }
    let n: usize = width * height * 4;
    let mut r: Vec<u8> = Vec::new();
    let mut i: usize = 0;
    while i < n
        invariant
            i <= n,
            r.len() == i,
            forall|k: int| 0 <= k < i ==> r@[k] == 0u8,
        decreases n - i,
    {
        r.push(0);
        i = i + 1;
    }
    proof {
        assert(r@ =~= blank_spec(width as int, height as int));
    }
    r
}

/// The logical point `(x, y)` lies inside a `w` by `h` viewport.
pub open spec fn pt_in_viewport(w: int, h: int, x: int, y: int) -> bool {
    0 <= x < w && 0 <= y < h
}

/// The colour stored at the logical point `(x, y)`.
pub open spec fn logical_color_at(buf: Seq<u8>, w: int, h: int, x: int, y: int) -> Rgb {
    color_at(buf, w, h - 1 - y, x)
}

/// The logical point `(x, y)` has been written.
pub open spec fn logical_opaque_at(buf: Seq<u8>, w: int, h: int, x: int, y: int) -> bool {
    opaque_at(buf, w, h - 1 - y, x)
}

/// Distinct pixels have distinct flat indices.
proof fn lemma_rowcol_injective(w: int, r1: int, c1: int, r2: int, c2: int)
    requires
        w >= 1,
        0 <= c1 < w,
        0 <= c2 < w,
        0 <= r1,
        0 <= r2,
        r1 != r2 || c1 != c2,
    ensures
        r1 * w + c1 != r2 * w + c2,
{
    if r1 == r2 {
    } else if r1 < r2 {
        assert(r1 * w + w <= r2 * w) by (nonlinear_arith)
            requires
                r1 + 1 <= r2,
                w >= 1,
        ;
    } else {
        assert(r2 * w + w <= r1 * w) by (nonlinear_arith)
            requires
                r2 + 1 <= r1,
                w >= 1,
        ;
    }
}

/// Writing one pixel leaves every other pixel's colour and opacity alone.
proof fn lemma_put_at_frame(
    buf: Seq<u8>,
    w: int,
    h: int,
    r1: int,
    c1: int,
    c: Rgb,
    r2: int,
    c2: int,
)
    requires
        buf.len() == w * h * 4,
        0 <= r1 < h,
        0 <= c1 < w,
        0 <= r2 < h,
        0 <= c2 < w,
        r1 != r2 || c1 != c2,
    ensures
        color_at(put_at(buf, w, r1, c1, c), w, r2, c2) == color_at(buf, w, r2, c2),
        opaque_at(put_at(buf, w, r1, c1, c), w, r2, c2) == opaque_at(buf, w, r2, c2),
{
    lemma_rowcol_injective(w, r1, c1, r2, c2);
    lemma_pix_index_bounds(w, h, r1, c1);
    lemma_pix_index_bounds(w, h, r2, c2);
}

/// Reading back a written pixel gives the written colour, fully opaque.
proof fn lemma_put_at_reads(buf: Seq<u8>, w: int, h: int, row: int, col: int, c: Rgb)
    requires
        buf.len() == w * h * 4,
        0 <= row < h,
        0 <= col < w,
    ensures
        color_at(put_at(buf, w, row, col, c), w, row, col) == c,
        opaque_at(put_at(buf, w, row, col, c), w, row, col),
{
    lemma_pix_index_bounds(w, h, row, col);
}

/// Drawing points that all avoid `(x, y)` leaves that pixel alone.
proof fn lemma_draw_frame(
    buf: Seq<u8>,
    w: int,
    h: int,
    pts: Seq<(int, int)>,
    c0: Rgb,
    c1: Rgb,
    k: int,
    x: int,
    y: int,
)
    requires
        buf.len() == w * h * 4,
        pt_in_viewport(w, h, x, y),
        forall|i: int| k <= i < pts.len() ==> pts[i] != (x, y),
    ensures
        logical_color_at(draw_points_from(buf, w, h, pts, c0, c1, k), w, h, x, y)
            == logical_color_at(buf, w, h, x, y),
        logical_opaque_at(draw_points_from(buf, w, h, pts, c0, c1, k), w, h, x, y)
            == logical_opaque_at(buf, w, h, x, y),
        draw_points_from(buf, w, h, pts, c0, c1, k).len() == buf.len(),
    decreases pts.len() - k,
{
    if k < 0 || k >= pts.len() {
    } else {
        let c = blend_spec(c0, c1, k, blend_den(pts.len() as int));
        let b2 = put_pixel_spec(buf, w, h, pts[k].0, pts[k].1, c);
        if 0 <= pts[k].0 < w && 0 <= pts[k].1 < h {
            lemma_pix_index_bounds(w, h, h - 1 - pts[k].1, pts[k].0);
            lemma_put_at_frame(buf, w, h, h - 1 - pts[k].1, pts[k].0, c, h - 1 - y, x);
            assert(b2.len() == buf.len());
        } else {
            assert(b2 == buf);
        }
        lemma_draw_frame(b2, w, h, pts, c0, c1, k + 1, x, y);
    }
}

/// After a whole edge is drawn, its final point carries the blend at the
/// final index.
proof fn lemma_draw_last(
    buf: Seq<u8>,
    w: int,
    h: int,
    pts: Seq<(int, int)>,
    c0: Rgb,
    c1: Rgb,
    k: int,
)
    requires
        buf.len() == w * h * 4,
        0 <= k < pts.len(),
        pt_in_viewport(w, h, pts.last().0, pts.last().1),
    ensures
        logical_color_at(
            draw_points_from(buf, w, h, pts, c0, c1, k),
            w,
            h,
            pts.last().0,
            pts.last().1,
        ) == blend_spec(c0, c1, pts.len() - 1, blend_den(pts.len() as int)),
        logical_opaque_at(
            draw_points_from(buf, w, h, pts, c0, c1, k),
            w,
            h,
            pts.last().0,
            pts.last().1,
        ),
    decreases pts.len() - k,
{
    let c = blend_spec(c0, c1, k, blend_den(pts.len() as int));
    let b2 = put_pixel_spec(buf, w, h, pts[k].0, pts[k].1, c);
    if k == pts.len() - 1 {
        lemma_put_at_reads(buf, w, h, h - 1 - pts[k].1, pts[k].0, c);
        assert(draw_points_from(b2, w, h, pts, c0, c1, k + 1) == b2);
    } else {
        if 0 <= pts[k].0 < w && 0 <= pts[k].1 < h {
            lemma_pix_index_bounds(w, h, h - 1 - pts[k].1, pts[k].0);
            assert(b2.len() == buf.len());
        } else {
            assert(b2 == buf);
        }
        lemma_draw_last(b2, w, h, pts, c0, c1, k + 1);
    }
}

/// The colours along a drawn edge interpolate linearly from `c0` to `c1`:
/// the edge's last point is written with exactly `c1` (and the single
/// point of a degenerate edge with `c0`).
pub proof fn lemma_edge_last_color(
    buf: Seq<u8>,
    w: int,
    h: int,
    pts: Seq<(int, int)>,
    c0: Rgb,
    c1: Rgb,
)
    requires
        buf.len() == w * h * 4,
        pts.len() >= 1,
        pt_in_viewport(w, h, pts.last().0, pts.last().1),
    ensures
        pts.len() >= 2 ==> logical_color_at(
            draw_points_from(buf, w, h, pts, c0, c1, 0),
            w,
            h,
            pts.last().0,
            pts.last().1,
        ) == c1,
        pts.len() == 1 ==> logical_color_at(
            draw_points_from(buf, w, h, pts, c0, c1, 0),
            w,
            h,
            pts.last().0,
            pts.last().1,
        ) == c0,
        logical_opaque_at(
            draw_points_from(buf, w, h, pts, c0, c1, 0),
            w,
            h,
            pts.last().0,
            pts.last().1,
        ),
{
    lemma_draw_last(buf, w, h, pts, c0, c1, 0);
    crate::color::lemma_blend_endpoints(c0, c1, blend_den(pts.len() as int));
}

/// The colours along a drawn edge interpolate linearly from `c0` to `c1`:
/// the edge's first point is written with exactly `c0`, provided no later
/// point of the edge revisits that pixel.
pub proof fn lemma_edge_first_color(
    buf: Seq<u8>,
    w: int,
    h: int,
    pts: Seq<(int, int)>,
    c0: Rgb,
    c1: Rgb,
)
    requires
        buf.len() == w * h * 4,
        pts.len() >= 1,
        pt_in_viewport(w, h, pts[0].0, pts[0].1),
        forall|i: int| 1 <= i < pts.len() ==> #[trigger] pts[i] != pts[0],
    ensures
        logical_color_at(
            draw_points_from(buf, w, h, pts, c0, c1, 0),
            w,
            h,
            pts[0].0,
            pts[0].1,
        ) == c0,
        logical_opaque_at(draw_points_from(buf, w, h, pts, c0, c1, 0), w, h, pts[0].0, pts[0].1),
{
    let c = blend_spec(c0, c1, 0, blend_den(pts.len() as int));
    crate::color::lemma_blend_endpoints(c0, c1, blend_den(pts.len() as int));
    assert(c == c0);
    let b2 = put_pixel_spec(buf, w, h, pts[0].0, pts[0].1, c);
    lemma_pix_index_bounds(w, h, h - 1 - pts[0].1, pts[0].0);
    lemma_put_at_reads(buf, w, h, h - 1 - pts[0].1, pts[0].0, c);
    assert(b2.len() == buf.len());
    lemma_draw_frame(b2, w, h, pts, c0, c1, 1, pts[0].0, pts[0].1);
}

/// Rendering is a function of the triangle and the buffer dimensions
/// alone: two passes over fresh buffers of the same size give identical
/// pixels.
pub proof fn lemma_render_deterministic(b1: Seq<u8>, b2: Seq<u8>, w: int, h: int, t: Triangle)
    requires
        b1 == render_spec(blank_spec(w, h), w, h, t),
        b2 == render_spec(blank_spec(w, h), w, h, t),
    ensures
        b1 == b2,
{
}

} // verus!
