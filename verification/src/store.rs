//! The triangle store: a growable arena of triangles addressed by opaque
//! handles.  Slots are never reused — deleting a triangle empties its slot
//! for good — so a handle issued for one triangle never comes to denote a
//! later one, and a stale handle is always detected as dead.

use vstd::prelude::*;
use crate::geometry::{inside_spec, point_in_triangle};
use crate::raster::{blank_buffer, blank_spec, render, render_spec, tri_coords_bounded};
use crate::triangles::Triangle;

verus! {

/// The same triangle with its dirty flag cleared.
pub open spec fn with_redraw_cleared(t: Triangle) -> Triangle {
    Triangle {
        first: t.first,
        middle: t.middle,
        last: t.last,
        edges_color: t.edges_color,
        redraw: false,
        index: t.index,
    }
}

/// An opaque handle to a stored triangle.
#[derive(Clone, Copy, Debug, PartialEq, Eq, Structural)]
pub struct EntityId {
    pub index: usize,
}

/// The store itself: one slot per triangle ever created.
pub struct TriangleStore {
    pub slots: Vec<Option<Triangle>>,
}

impl TriangleStore {
    /// The handle refers to a triangle that is still present.
    pub open spec fn live(self, id: EntityId) -> bool {
        id.index < self.slots@.len() && self.slots@[id.index as int] is Some
    }

    /// The triangle a live handle refers to.
    pub open spec fn tri(self, id: EntityId) -> Triangle {
        self.slots@[id.index as int]->0
    }

    /// Every stored triangle's coordinates fit the geometry's range.
    pub open spec fn wf(self) -> bool {
        forall|i: int|
            0 <= i < self.slots@.len() && self.slots@[i] is Some ==> tri_coords_bounded(
                (#[trigger] self.slots@[i])->0,
            )
    }

    pub fn new() -> (s: TriangleStore)
        ensures
            s.slots@.len() == 0,
            s.wf(),
    {
        TriangleStore { slots: Vec::new() }
    }

    pub fn slot_count(&self) -> (n: usize)
        ensures
            n == self.slots@.len(),
    {
        self.slots.len()
    }

    /// Stores a triangle and hands back a fresh handle: one that was not
    /// live before and never will denote any other triangle.
    pub fn insert(&mut self, t: Triangle) -> (id: EntityId)
        requires
            old(self).wf(),
            tri_coords_bounded(t),
            old(self).slots@.len() < usize::MAX,
        ensures
            final(self).wf(),
            id.index == old(self).slots@.len(),
            !old(self).live(id),
            final(self).live(id),
            final(self).tri(id) == t,
            final(self).slots@.len() == old(self).slots@.len() + 1,
            forall|o: EntityId| old(self).live(o) ==> #[trigger] final(self).live(o),
            forall|o: EntityId| old(self).live(o)
                ==> (#[trigger] final(self).tri(o)) == old(self).tri(o),
            forall|o: EntityId| #[trigger] final(self).live(o) ==> old(self).live(o) || o == id,
    {
        let id = EntityId { index: self.slots.len() };
        self.slots.push(Some(t));
        id
    }

    /// Looks a handle up; a dead handle gives nothing.
    pub fn get(&self, id: EntityId) -> (r: Option<&Triangle>)
        ensures
            match r {
                Option::Some(t) => self.live(id) && *t == self.tri(id),
                Option::None => !self.live(id),
            },
    {
        if id.index < self.slots.len() {
            match &self.slots[id.index] {
                Some(t) => Some(t),
                None => None,
            }
        } else {
            None
        }
    }

    /// Replaces the triangle behind a live handle.
    pub fn set(&mut self, id: EntityId, t: Triangle)
        requires
            old(self).wf(),
            old(self).live(id),
            tri_coords_bounded(t),
        ensures
            final(self).wf(),
            final(self).live(id),
            final(self).tri(id) == t,
            final(self).slots@.len() == old(self).slots@.len(),
            forall|o: EntityId| o != id ==> #[trigger] final(self).live(o) == old(self).live(o),
            forall|o: EntityId| o != id && old(self).live(o) ==> (#[trigger] final(self).tri(o))
                == old(self).tri(o),
    {
        self.slots.set(id.index, Some(t));
    }

    /// Deletes the triangle behind a handle; its slot stays empty for
    /// good, so the handle never matches again.
    pub fn remove(&mut self, id: EntityId)
        requires
            old(self).wf(),
        ensures
            final(self).wf(),
            !final(self).live(id),
            final(self).slots@.len() == old(self).slots@.len(),
            forall|o: EntityId| o.index != id.index ==> #[trigger] final(self).live(o) == old(
                self,
            ).live(o),
            forall|o: EntityId| o.index != id.index && old(self).live(o)
                ==> (#[trigger] final(self).tri(o)) == old(self).tri(o),
    {
        if id.index < self.slots.len() {
            self.slots.set(id.index, None);
        }
    }

    /// The hit test of selection mode: the first triangle in slot order
    /// that contains the click, if any.
    pub fn first_hit(&self, px: u32, py: u32) -> (r: Option<EntityId>)
        requires
            self.wf(),
            px <= 8192,
            py <= 8192,
        ensures
            match r {
                Option::Some(id) => {
                    &&& self.live(id)
                    &&& tri_hit(self.tri(id), px, py)
                    &&& forall|o: EntityId| o.index < id.index && #[trigger] self.live(o)
                        ==> !tri_hit(self.tri(o), px, py)
                },
                Option::None => forall|o: EntityId| #[trigger] self.live(o) ==> !tri_hit(
                    self.tri(o),
                    px,
                    py,
                ),
            },
    {
        let n = self.slots.len();
        let mut i: usize = 0;
        while i < n
            invariant
                self.wf(),
                px <= 8192,
                py <= 8192,
                n == self.slots@.len(),
                i <= n,
                forall|o: EntityId| o.index < i && #[trigger] self.live(o) ==> !tri_hit(
                    self.tri(o),
                    px,
                    py,
                ),
            decreases n - i,
        {
            if let Some(t) = &self.slots[i] {
                if point_in_triangle(px, py, t) {
                    return Some(EntityId { index: i });
                }
            }
            i = i + 1;
        }
        None
    }

    /// Rasterizes every triangle whose dirty flag is set, clears those
    /// flags, and hands back the fresh pixel buffers in slot order.
    pub fn redrawing(&mut self, width: usize, height: usize) -> (out: Vec<(EntityId, Vec<u8>)>)
        requires
            old(self).wf(),
            1 <= width <= 8192,
            1 <= height <= 8192,
        ensures
            final(self).wf(),
            final(self).slots@.len() == old(self).slots@.len(),
            forall|o: EntityId| #[trigger] final(self).live(o) == old(self).live(o),
            forall|o: EntityId| old(self).live(o) ==> (#[trigger] final(self).tri(o)) == with_redraw_cleared(old(self).tri(o)),
            forall|k: int| 0 <= k < out@.len() ==> {
                let id = (#[trigger] out@[k]).0;
                &&& old(self).live(id)
                &&& old(self).tri(id).redraw
                &&& out@[k].1@ == render_spec(
                    blank_spec(width as int, height as int),
                    width as int,
                    height as int,
                    old(self).tri(id),
                )
            },
            forall|k1: int, k2: int| 0 <= k1 < k2 < out@.len() ==> (#[trigger] out@[k1]).0.index < (
            #[trigger] out@[k2]).0.index,
            forall|o: EntityId| old(self).live(o) && old(self).tri(o).redraw ==> exists|k: int|
                0 <= k < out@.len() && (#[trigger] out@[k]).0 == o,
    {
        let n = self.slots.len();
        let mut out: Vec<(EntityId, Vec<u8>)> = Vec::new();
        let mut i: usize = 0;
        while i < n
            invariant
                self.wf(),
                1 <= width <= 8192,
                1 <= height <= 8192,
                n == self.slots@.len(),
                self.slots@.len() == old(self).slots@.len(),
                i <= n,
                forall|o: EntityId| #[trigger] self.live(o) == old(self).live(o),
                forall|o: EntityId| old(self).live(o) && o.index >= i ==> (#[trigger] self.tri(o))
                    == old(self).tri(o),
                forall|o: EntityId| old(self).live(o) && o.index < i ==> (#[trigger] self.tri(o))
                    == with_redraw_cleared(old(self).tri(o)),
                forall|k: int| 0 <= k < out@.len() ==> {
                    let id = (#[trigger] out@[k]).0;
                    &&& id.index < i
                    &&& old(self).live(id)
                    &&& old(self).tri(id).redraw
                    &&& out@[k].1@ == render_spec(
                        blank_spec(width as int, height as int),
                        width as int,
                        height as int,
                        old(self).tri(id),
                    )
                },
                forall|k1: int, k2: int| 0 <= k1 < k2 < out@.len() ==> (#[trigger] out@[k1]).0.index
                    < (#[trigger] out@[k2]).0.index,
                forall|o: EntityId| old(self).live(o) && old(self).tri(o).redraw && o.index < i
                    ==> exists|k: int| 0 <= k < out@.len() && (#[trigger] out@[k]).0 == o,
            decreases n - i,
        {
            let needs = match &self.slots[i] {
                Some(t) => t.redraw,
                None => false,
            };
            if needs {
                let id = EntityId { index: i };
                let t = match self.get(id) {
                    Some(t) => *t,
                    None => unreached(),
                };
                let mut buf = blank_buffer(width, height);
                render(&t, &mut buf, width, height);
                let cleared = Triangle { redraw: false, ..t };
                self.set(id, cleared);
                let ghost out0 = out@;
                out.push((id, buf));
                proof {
                    assert forall|o: EntityId|
                        old(self).live(o) && old(self).tri(o).redraw && o.index < i + 1 implies
                        exists|k: int| 0 <= k < out@.len() && (#[trigger] out@[k]).0 == o by {
                        if o.index < i {
                            let k = choose|k: int| 0 <= k < out0.len() && (#[trigger] out0[k]).0
                                == o;
                            assert(out@[k].0 == o);
                        } else {
                            assert(out@[out@.len() - 1].0 == o);
                        }
                    }
                }
            } else {
                proof {
                    let o = EntityId { index: i };
                    if self.slots@[i as int] is Some {
                        assert(self.live(o));
                        assert(old(self).live(o));
                        assert(self.tri(o) == old(self).tri(o));
                        assert(!old(self).tri(o).redraw);
                        assert(self.tri(o) == with_redraw_cleared(old(self).tri(o)));
                    }
                    assert forall|oo: EntityId|
                        old(self).live(oo) && oo.index < i + 1 implies (#[trigger] self.tri(oo))
                        == with_redraw_cleared(old(self).tri(oo)) by {
                        if oo.index >= i {
                            assert(oo == o);
                            assert(self.live(o) == old(self).live(o));
                            assert(self.slots@[i as int] is Some);
                        }
                    }
                    assert forall|oo: EntityId|
                        old(self).live(oo) && old(self).tri(oo).redraw && oo.index < i
                            + 1 implies exists|k: int|
                        0 <= k < out@.len() && (#[trigger] out@[k]).0 == oo by {
                        if oo.index >= i {
                            assert(oo == o);
                            assert(self.live(o) == old(self).live(o));
                            assert(self.slots@[i as int] is Some);
                            assert(!old(self).tri(oo).redraw);
                        }
                    }
                }
            }
            i = i + 1;
        }
        out
    }
}

/// The click lies inside the stored triangle.
pub open spec fn tri_hit(t: Triangle, px: u32, py: u32) -> bool {
    inside_spec(
        px as int,
        py as int,
        t.first.x as int,
        t.first.y as int,
        t.middle.x as int,
        t.middle.y as int,
        t.last.x as int,
        t.last.y as int,
    )
}

} // verus!
