use triangle_editor::bresenham::bresenham;
use triangle_editor::color::Rgb;
use triangle_editor::geometry::{barycentric_coordinates, point_in_triangle};
use triangle_editor::triangles::{Triangle, Vertex};

fn vertex(x: u32, y: u32) -> Vertex {
    Vertex { x, y, z: 0, color: Rgb { r: 0, g: 0, b: 0 } }
}

fn triangle(a: (u32, u32), b: (u32, u32), c: (u32, u32)) -> Triangle {
    Triangle {
        first: vertex(a.0, a.1),
        middle: vertex(b.0, b.1),
        last: vertex(c.0, c.1),
        edges_color: None,
        redraw: false,
        index: 1,
    }
}

#[test]
fn bresenham_includes_both_endpoints() {
    let pts = bresenham(3, 7, 20, 11);
    assert_eq!(pts[0], (3, 7));
    assert_eq!(pts[pts.len() - 1], (20, 11));
}

#[test]
fn bresenham_degenerate_segment_is_one_point() {
    let pts = bresenham(5, 5, 5, 5);
    assert_eq!(pts, vec![(5, 5)]);
}

#[test]
fn bresenham_count_is_major_axis_plus_one() {
    assert_eq!(bresenham(0, 0, 5, 2).len(), 6);
    assert_eq!(bresenham(0, 0, 2, 5).len(), 6);
    assert_eq!(bresenham(0, 0, 4, 4).len(), 5);
    assert_eq!(bresenham(0, 0, 7, 0).len(), 8);
    assert_eq!(bresenham(0, 0, 0, 7).len(), 8);
}

#[test]
fn bresenham_count_invariant_under_swap() {
    let cases = [
        (0, 0, 5, 2),
        (3, 7, 20, 11),
        (-8, 4, 9, -13),
        (1, 1, 1, 9),
        (2, 2, 2, 2),
    ];
    for (x0, y0, x1, y1) in cases {
        let forward = bresenham(x0, y0, x1, y1);
        let backward = bresenham(x1, y1, x0, y0);
        assert_eq!(forward.len(), backward.len());
        assert_eq!(forward[0], backward[backward.len() - 1]);
        assert_eq!(forward[forward.len() - 1], backward[0]);
    }
}

#[test]
fn bresenham_shallow_line_pixels() {
    let pts = bresenham(0, 0, 5, 2);
    assert_eq!(pts, vec![(0, 0), (1, 0), (2, 1), (3, 1), (4, 2), (5, 2)]);
}

#[test]
fn bresenham_diagonal_line_pixels() {
    let pts = bresenham(0, 0, 3, 3);
    assert_eq!(pts, vec![(0, 0), (1, 1), (2, 2), (3, 3)]);
}

#[test]
fn barycentric_of_apex_is_whole_weight() {
    // At corner c the coordinate u is 1: its numerator equals the denominator.
    let (nu, nv, d) = barycentric_coordinates((9, 12), (0, 0), (7, 1), (9, 12));
    assert!(d > 0);
    assert_eq!(nu, d);
    assert_eq!(nv, 0);
}

#[test]
fn point_in_triangle_accepts_centroid() {
    let t = triangle((0, 0), (3, 0), (0, 3));
    assert!(point_in_triangle(1, 1, &t));
}

#[test]
fn point_in_triangle_accepts_boundary() {
    let t = triangle((0, 0), (4, 0), (0, 4));
    assert!(point_in_triangle(2, 0, &t));
    assert!(point_in_triangle(0, 0, &t));
    assert!(point_in_triangle(2, 2, &t));
}

#[test]
fn point_in_triangle_rejects_far_point() {
    let t = triangle((10, 10), (50, 80), (90, 10));
    assert!(!point_in_triangle(200, 200, &t));
    assert!(!point_in_triangle(0, 0, &t));
    assert!(!point_in_triangle(91, 10, &t));
}

#[test]
fn point_in_triangle_rejects_everything_when_collinear() {
    let t = triangle((0, 0), (5, 5), (10, 10));
    assert!(!point_in_triangle(5, 5, &t));
    assert!(!point_in_triangle(3, 4, &t));
}
