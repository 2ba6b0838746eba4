//! The selector overlay: the set of concentric circle markers drawn over
//! a triangle's vertices — a black ring, a white ring, and a filled
//! circle in the vertex's colour, which shrinks when that vertex is the
//! one selected for a move.  The set is derived from the editing state
//! and rebuilt whenever the overlay dirty flag is raised.

use vstd::prelude::*;
use crate::color::Rgb;
use crate::state::{Function, State};
use crate::store::TriangleStore;
use crate::triangles::{Vertex, VertexOrder};

verus! {

/// One circle of the overlay: position, stacking order, radius, colour.
#[derive(Clone, Copy, Debug, PartialEq, Eq, Structural)]
pub struct Marker {
    pub order: VertexOrder,
    pub x: u32,
    pub y: u32,
    pub z: u32,
    pub radius: u32,
    pub color: Rgb,
}

/// The radius of the inner, colour-filled circle: reduced when the vertex
/// is the one picked for a move.
pub open spec fn inner_radius(selected: Option<VertexOrder>, slot: VertexOrder) -> u32 {
    if selected == Some(slot) {
        4u32
    } else {
        7u32
    }
}

/// The three concentric circles marking one vertex, stacked from `zbase`.
pub open spec fn marker_triple(order: VertexOrder, v: Vertex, inner: u32, zbase: u32) -> Seq<
    Marker,
> {
    seq![
        Marker {
            order,
            x: v.x,
            y: v.y,
            z: zbase,
            radius: 9,
            color: Rgb { r: 0, g: 0, b: 0 },
        },
        Marker {
            order,
            x: v.x,
            y: v.y,
            z: (zbase + 1) as u32,
            radius: 8,
            color: Rgb { r: 255, g: 255, b: 255 },
        },
        Marker { order, x: v.x, y: v.y, z: (zbase + 2) as u32, radius: inner, color: v.color },
    ]
}

/// The desired marker set: one triple per pending vertex while creating,
/// one triple per corner of the edited triangle while modifying, nothing
/// otherwise (or when the edited triangle is gone).
pub open spec fn markers_spec(s: State, store: TriangleStore) -> Seq<Marker> {
    match s.function {
        Function::Create => {
            let p = s.new_triangle@;
            if p.len() == 0 {
                Seq::empty()
            } else if p.len() == 1 {
                marker_triple(VertexOrder::First, p[0], 7, 100)
            } else if p.len() == 2 {
                marker_triple(VertexOrder::First, p[0], 7, 100) + marker_triple(
                    VertexOrder::Middle,
                    p[1],
                    7,
                    103,
                )
            } else {
                marker_triple(VertexOrder::First, p[0], 7, 100) + marker_triple(
                    VertexOrder::Middle,
                    p[1],
                    7,
                    103,
                ) + marker_triple(VertexOrder::Last, p[2], 7, 106)
            }
        },
        Function::Modify(e) => {
            if store.live(e) {
                let t = store.tri(e);
                marker_triple(
                    VertexOrder::First,
                    t.first,
                    inner_radius(s.selected_vertex, VertexOrder::First),
                    100,
                ) + marker_triple(
                    VertexOrder::Middle,
                    t.middle,
                    inner_radius(s.selected_vertex, VertexOrder::Middle),
                    103,
                ) + marker_triple(
                    VertexOrder::Last,
                    t.last,
                    inner_radius(s.selected_vertex, VertexOrder::Last),
                    106,
                )
            } else {
                Seq::empty()
            }
        },
        _ => Seq::empty(),
    }
}

/// Appends one vertex's marker triple.
fn push_triple(out: &mut Vec<Marker>, order: VertexOrder, v: &Vertex, inner: u32, zbase: u32)
    requires
        zbase <= 1000,
    ensures
        final(out)@ == old(out)@ + marker_triple(order, *v, inner, zbase),
{
    let ghost out0 = out@;
    out.push(Marker { order, x: v.x, y: v.y, z: zbase, radius: 9, color: Rgb { r: 0, g: 0, b: 0 } });
    out.push(
        Marker {
            order,
            x: v.x,
            y: v.y,
            z: zbase + 1,
            radius: 8,
            color: Rgb { r: 255, g: 255, b: 255 },
        },
    );
    out.push(Marker { order, x: v.x, y: v.y, z: zbase + 2, radius: inner, color: v.color });
    proof {
        assert(out@ =~= out0 + marker_triple(order, *v, inner, zbase));
    }
}

/// The radius of the inner circle for one slot, executably.
fn inner_radius_for(selected: &Option<VertexOrder>, slot: VertexOrder) -> (r: u32)
    ensures
        r == inner_radius(*selected, slot),
{
    match selected {
        Some(s) => {
            if *s == slot {
                4
            } else {
                7
            }
        },
        None => 7,
    }
}

/// Rebuilds the overlay when its dirty flag is raised: clears the flag
/// and hands back the desired marker set; otherwise does nothing.
pub fn spawn_vertex_selectors(state: &mut State, store: &TriangleStore) -> (r: Option<Vec<Marker>>)
    ensures
        !old(state).spawn_vertex_selectors ==> r is None && *final(state) == *old(state),
        old(state).spawn_vertex_selectors ==> {
            &&& *final(state) == (State { spawn_vertex_selectors: false, ..*old(state) })
            &&& r is Some
            &&& (r->0)@ == markers_spec(*old(state), *store)
        },
{
    if !state.spawn_vertex_selectors {
        return None;
    }
    state.spawn_vertex_selectors = false;
    let mut out: Vec<Marker> = Vec::new();
    match state.function {
        Function::Create => {
            if state.new_triangle.len() >= 1 {
                let v = state.new_triangle[0];
                push_triple(&mut out, VertexOrder::First, &v, 7, 100);
            }
            if state.new_triangle.len() >= 2 {
                let v = state.new_triangle[1];
                push_triple(&mut out, VertexOrder::Middle, &v, 7, 103);
            }
            if state.new_triangle.len() >= 3 {
                let v = state.new_triangle[2];
                push_triple(&mut out, VertexOrder::Last, &v, 7, 106);
            }
            proof {
                assert(out@ =~= markers_spec(*old(state), *store));
            }
        },
        Function::Modify(e) => {
            if let Some(t) = store.get(e) {
                let first = t.first;
                let middle = t.middle;
                let last = t.last;
                let r0 = inner_radius_for(&state.selected_vertex, VertexOrder::First);
                push_triple(&mut out, VertexOrder::First, &first, r0, 100);
                let r1 = inner_radius_for(&state.selected_vertex, VertexOrder::Middle);
                push_triple(&mut out, VertexOrder::Middle, &middle, r1, 103);
                let r2 = inner_radius_for(&state.selected_vertex, VertexOrder::Last);
                push_triple(&mut out, VertexOrder::Last, &last, r2, 106);
            }
            proof {
                assert(out@ =~= markers_spec(*old(state), *store));
            }
        },
        _ => {
            proof {
                assert(out@ =~= markers_spec(*old(state), *store));
            }
        },
    }
    Some(out)
}

} // verus!
