use triangle_editor::color::{blend, Rgb};
use triangle_editor::raster::{blank_buffer, render};
use triangle_editor::triangles::{Triangle, Vertex};

fn pixel(buf: &[u8], w: usize, h: usize, x: usize, y: usize) -> (u8, u8, u8, u8) {
    let i = ((h - 1 - y) * w + x) * 4;
    (buf[i], buf[i + 1], buf[i + 2], buf[i + 3])
}

fn flat_bottom_triangle() -> Triangle {
    Triangle {
        first: Vertex { x: 10, y: 10, z: 0, color: Rgb { r: 255, g: 0, b: 0 } },
        middle: Vertex { x: 30, y: 30, z: 0, color: Rgb { r: 0, g: 255, b: 0 } },
        last: Vertex { x: 50, y: 10, z: 0, color: Rgb { r: 0, g: 0, b: 255 } },
        edges_color: None,
        redraw: true,
        index: 1,
    }
}

#[test]
fn blend_hits_both_endpoints_exactly() {
    let c0 = Rgb { r: 10, g: 200, b: 7 };
    let c1 = Rgb { r: 250, g: 3, b: 99 };
    assert_eq!(blend(c0, c1, 0, 17), c0);
    assert_eq!(blend(c0, c1, 17, 17), c1);
}

#[test]
fn blend_midpoint_is_exact() {
    let c0 = Rgb { r: 0, g: 255, b: 100 };
    let c1 = Rgb { r: 255, g: 0, b: 200 };
    let mid = blend(c0, c1, 1, 2);
    assert_eq!(mid, Rgb { r: 127, g: 128, b: 150 });
}

#[test]
fn blank_buffer_is_transparent() {
    let buf = blank_buffer(16, 8);
    assert_eq!(buf.len(), 16 * 8 * 4);
    assert!(buf.iter().all(|&b| b == 0));
}

#[test]
fn render_writes_vertex_colors_at_corners() {
    let t = flat_bottom_triangle();
    let mut buf = blank_buffer(64, 64);
    render(&t, &mut buf, 64, 64);
    assert_eq!(pixel(&buf, 64, 64, 10, 10), (255, 0, 0, 255));
    assert_eq!(pixel(&buf, 64, 64, 30, 30), (0, 255, 0, 255));
    assert_eq!(pixel(&buf, 64, 64, 50, 10), (0, 0, 255, 255));
}

#[test]
fn render_edge_colors_interpolate_between_endpoints() {
    // A single horizontal edge: degenerate triangle whose three corners sit
    // on one row, so the first edge runs alone along that row.
    let t = Triangle {
        first: Vertex { x: 0, y: 0, z: 0, color: Rgb { r: 0, g: 0, b: 0 } },
        middle: Vertex { x: 10, y: 0, z: 0, color: Rgb { r: 200, g: 0, b: 0 } },
        last: Vertex { x: 10, y: 0, z: 0, color: Rgb { r: 200, g: 0, b: 0 } },
        edges_color: None,
        redraw: true,
        index: 1,
    };
    let mut buf = blank_buffer(32, 4);
    render(&t, &mut buf, 32, 4);
    // Eleven points, denominator ten: the red channel climbs by twenty per
    // column.
    for x in 0..=10 {
        let (r, g, b, a) = pixel(&buf, 32, 4, x, 0);
        assert_eq!(r, (x * 20) as u8);
        assert_eq!((g, b, a), (0, 0, 255));
    }
}

#[test]
fn render_fills_interior_between_edge_runs() {
    let t = flat_bottom_triangle();
    let mut buf = blank_buffer(64, 64);
    render(&t, &mut buf, 64, 64);
    // Row 15 crosses the two slanted edges at x = 15 and x = 45; the
    // columns strictly between are filled.
    let (_, _, _, a) = pixel(&buf, 64, 64, 30, 15);
    assert_eq!(a, 255);
    // Outside the bounding box nothing is written.
    let (_, _, _, outside) = pixel(&buf, 64, 64, 55, 15);
    assert_eq!(outside, 0);
}

#[test]
fn render_constant_edge_color_overrides_interpolation() {
    let mut t = flat_bottom_triangle();
    t.edges_color = Some(Rgb { r: 9, g: 8, b: 7 });
    let mut buf = blank_buffer(64, 64);
    render(&t, &mut buf, 64, 64);
    assert_eq!(pixel(&buf, 64, 64, 10, 10), (9, 8, 7, 255));
    assert_eq!(pixel(&buf, 64, 64, 30, 30), (9, 8, 7, 255));
    assert_eq!(pixel(&buf, 64, 64, 50, 10), (9, 8, 7, 255));
}

#[test]
fn render_same_triangle_twice_gives_identical_buffers() {
    let t = flat_bottom_triangle();
    let mut b1 = blank_buffer(64, 64);
    render(&t, &mut b1, 64, 64);
    let mut b2 = blank_buffer(64, 64);
    render(&t, &mut b2, 64, 64);
    assert_eq!(b1, b2);
}

#[test]
fn render_never_panics_on_out_of_viewport_triangle() {
    // The triangle pokes outside an 8x8 buffer; writes beyond it are
    // dropped and the pass completes.
    let t = Triangle {
        first: Vertex { x: 2, y: 2, z: 0, color: Rgb { r: 1, g: 2, b: 3 } },
        middle: Vertex { x: 40, y: 5, z: 0, color: Rgb { r: 4, g: 5, b: 6 } },
        last: Vertex { x: 60, y: 90, z: 0, color: Rgb { r: 7, g: 8, b: 9 } },
        edges_color: None,
        redraw: true,
        index: 1,
    };
    let mut buf = blank_buffer(8, 8);
    render(&t, &mut buf, 8, 8);
    assert_eq!(buf.len(), 8 * 8 * 4);
    assert_eq!(pixel(&buf, 8, 8, 2, 2), (1, 2, 3, 255));
}
