//! Vertices and triangles.  A triangle owns three vertices named `first`,
//! `middle` and `last`, kept sorted by ascending x-position after every
//! creation or edit: the scanline fill depends on that ordering.

use vstd::prelude::*;
use vstd::multiset::Multiset;
use crate::color::Rgb;

verus! {

/// Which of a triangle's three vertices a marker or a selection refers to.
#[derive(Clone, Copy, Debug, PartialEq, Eq, Structural)]
pub enum VertexOrder {
    First,
    Middle,
    Last,
}

/// A triangle corner: a position in logical pixels (origin bottom-left),
/// a stacking order `z` (derived from creation order), and a colour.
#[derive(Clone, Copy, Debug, PartialEq, Eq, Structural)]
pub struct Vertex {
    pub x: u32,
    pub y: u32,
    pub z: usize,
    pub color: Rgb,
}

/// A triangle: three vertices sorted by ascending x, an optional constant
/// edge colour overriding per-edge interpolation, a dirty flag, and a
/// 1-based user-facing label.
#[derive(Clone, Copy, Debug)]
pub struct Triangle {
    pub first: Vertex,
    pub middle: Vertex,
    pub last: Vertex,
    pub edges_color: Option<Rgb>,
    pub redraw: bool,
    pub index: usize,
}

/// The ordering invariant that every stored triangle maintains.
pub open spec fn sorted_by_x(t: Triangle) -> bool {
    t.first.x <= t.middle.x && t.middle.x <= t.last.x
}

/// The vertex sits inside a `width` by `height` viewport.
pub open spec fn vertex_in_viewport(v: Vertex, width: u32, height: u32) -> bool {
    v.x < width && v.y < height
}

/// The three values as a multiset, for stating that sorting permutes them.
pub open spec fn vertex_mset(a: Vertex, b: Vertex, c: Vertex) -> Multiset<Vertex> {
    Multiset::empty().insert(a).insert(b).insert(c)
}

/// Sorts three vertices by ascending x-position.
pub fn sort3(a: Vertex, b: Vertex, c: Vertex) -> (r: (Vertex, Vertex, Vertex))
    ensures
        r.0.x <= r.1.x && r.1.x <= r.2.x,
        vertex_mset(r.0, r.1, r.2) == vertex_mset(a, b, c),
        (r.0 == a || r.0 == b || r.0 == c) && (r.1 == a || r.1 == b || r.1 == c) && (r.2 == a
            || r.2 == b || r.2 == c),
{
    let r = if a.x <= b.x {
        if b.x <= c.x {
            (a, b, c)
        } else if a.x <= c.x {
            (a, c, b)
        } else {
            (c, a, b)
        }
    } else {
        if a.x <= c.x {
            (b, a, c)
        } else if b.x <= c.x {
            (b, c, a)
        } else {
            (c, b, a)
        }
    };
    proof {
        assert(vertex_mset(r.0, r.1, r.2) =~= vertex_mset(a, b, c));
    }
    r
}

/// Sorting pins the triangle down completely when the three x-positions
/// are distinct: a sorted triangle whose corners are a permutation of
/// `a`, `b`, `c` (given in ascending x order) is exactly `(a, b, c)`.
pub proof fn lemma_sorted_triple_unique(t: Triangle, a: Vertex, b: Vertex, c: Vertex)
    requires
        sorted_by_x(t),
        vertex_mset(t.first, t.middle, t.last) == vertex_mset(a, b, c),
        a.x < b.x,
        b.x < c.x,
    ensures
        t.first == a,
        t.middle == b,
        t.last == c,
{
    let m = vertex_mset(t.first, t.middle, t.last);
    assert(m.count(t.first) >= 1);
    assert(m.count(t.middle) >= 1);
    assert(m.count(t.last) >= 1);
    assert(vertex_mset(a, b, c).count(t.first) >= 1);
    assert(t.first == a || t.first == b || t.first == c);
    assert(t.middle == a || t.middle == b || t.middle == c);
    assert(t.last == a || t.last == b || t.last == c);
    assert(m.count(a) == vertex_mset(a, b, c).count(a));
    assert(m.count(b) == vertex_mset(a, b, c).count(b));
    assert(m.count(c) == vertex_mset(a, b, c).count(c));
}

impl Triangle {
    /// Builds the triangle stored when the third pending vertex arrives:
    /// the three clicks sorted by ascending x, flagged for redraw.
    pub fn from_pending(
        v0: Vertex,
        v1: Vertex,
        v2: Vertex,
        edges_color: Option<Rgb>,
        index: usize,
    ) -> (t: Triangle)
        ensures
            sorted_by_x(t),
            vertex_mset(t.first, t.middle, t.last) == vertex_mset(v0, v1, v2),
            (t.first == v0 || t.first == v1 || t.first == v2) && (t.middle == v0 || t.middle == v1
                || t.middle == v2) && (t.last == v0 || t.last == v1 || t.last == v2),
            t.edges_color == edges_color,
            t.redraw == true,
            t.index == index,
    {
        let (first, middle, last) = sort3(v0, v1, v2);
        Triangle { first, middle, last, edges_color, redraw: true, index }
    }

    /// Replaces one vertex and restores the ordering invariant; used when a
    /// vertex is moved or edited.
    pub fn with_vertex(self, slot: VertexOrder, v: Vertex) -> (t: Triangle)
        ensures
            sorted_by_x(t),
            vertex_mset(t.first, t.middle, t.last) == (match slot {
                VertexOrder::First => vertex_mset(v, self.middle, self.last),
                VertexOrder::Middle => vertex_mset(self.first, v, self.last),
                VertexOrder::Last => vertex_mset(self.first, self.middle, v),
            }),
            (t.first == v || t.first == self.first || t.first == self.middle || t.first
                == self.last) && (t.middle == v || t.middle == self.first || t.middle
                == self.middle || t.middle == self.last) && (t.last == v || t.last == self.first
                || t.last == self.middle || t.last == self.last),
            t.edges_color == self.edges_color,
            t.redraw == self.redraw,
            t.index == self.index,
    {
        let (f, m, l) = match slot {
            VertexOrder::First => (v, self.middle, self.last),
            VertexOrder::Middle => (self.first, v, self.last),
            VertexOrder::Last => (self.first, self.middle, v),
        };
        let (first, middle, last) = sort3(f, m, l);
        Triangle {
            first,
            middle,
            last,
            edges_color: self.edges_color,
            redraw: self.redraw,
            index: self.index,
        }
    }
}

} // verus!
