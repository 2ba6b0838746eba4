//! The interaction state machine: the current editing mode, the vertices
//! collected while a triangle is being created, the selected-vertex marker
//! of a two-click move, the active colours, and the handlers that turn
//! pointer events and panel intents into store mutations.
//!
//! Handlers take logical cursor positions (origin bottom-left; the
//! windowing layer converts screen coordinates with `flip_y`) and a
//! "pointer captured by the panel" flag that suppresses every hit test.

use vstd::prelude::*;
use crate::bresenham::abs_int;
use crate::color::Rgb;
use crate::store::{tri_hit, EntityId, TriangleStore};
use crate::triangles::{vertex_in_viewport, vertex_mset, Triangle, Vertex, VertexOrder};

verus! {

/// The editing mode.
#[derive(Clone, Copy, Debug, PartialEq, Eq, Structural)]
pub enum Function {
    Idle,
    Create,
    Select,
    Modify(EntityId),
}

/// The shared editing state.
pub struct State {
    pub function: Function,
    pub selected_vertex: Option<VertexOrder>,
    pub vertex_color_picker: Rgb,
    pub edges_color_picker: Rgb,
    pub constant_edges: bool,
    pub new_triangle: Vec<Vertex>,
    pub spawn_vertex_selectors: bool,
    pub triangles_count: usize,
    pub show_properties_window: bool,
    pub edges_string_parsing_error: bool,
    pub first_vertex_string_parsing_error: bool,
    pub middle_vertex_string_parsing_error: bool,
    pub last_vertex_string_parsing_error: bool,
}

/// The editing state's own invariant: at most the three vertices of one
/// triangle pending, a 1-based creation counter, and pending vertices
/// inside the viewport.
pub open spec fn state_wf(s: State, width: u32, height: u32) -> bool {
    &&& s.new_triangle@.len() <= 3
    &&& s.triangles_count >= 1
    &&& forall|i: int| 0 <= i < s.new_triangle@.len() ==> vertex_in_viewport(
        #[trigger] s.new_triangle@[i],
        width,
        height,
    )
}

/// The dimensions this editor accepts.
pub open spec fn viewport_ok(width: u32, height: u32) -> bool {
    1 <= width <= 8192 && 1 <= height <= 8192
}

/// The initial editing state: idle, red vertex colour, black edge colour,
/// nothing pending.
pub fn setup_state() -> (s: State)
    ensures
        s.function == Function::Idle,
        s.selected_vertex is None,
        s.vertex_color_picker == (Rgb { r: 255, g: 0, b: 0 }),
        s.edges_color_picker == (Rgb { r: 0, g: 0, b: 0 }),
        !s.constant_edges,
        s.new_triangle@.len() == 0,
        !s.spawn_vertex_selectors,
        s.triangles_count == 1,
        !s.show_properties_window,
        !s.edges_string_parsing_error,
        !s.first_vertex_string_parsing_error,
        !s.middle_vertex_string_parsing_error,
        !s.last_vertex_string_parsing_error,
        forall|w: u32, h: u32| state_wf(s, w, h),
{
    State {
        function: Function::Idle,
        selected_vertex: None,
        vertex_color_picker: Rgb { r: 255, g: 0, b: 0 },
        edges_color_picker: Rgb { r: 0, g: 0, b: 0 },
        constant_edges: false,
        new_triangle: Vec::new(),
        spawn_vertex_selectors: false,
        triangles_count: 1,
        show_properties_window: false,
        edges_string_parsing_error: false,
        first_vertex_string_parsing_error: false,
        middle_vertex_string_parsing_error: false,
        last_vertex_string_parsing_error: false,
    }
}

/// The vertex a creation click places: cursor position, active colour,
/// stacking order derived from the creation counter.
pub open spec fn click_vertex(s: State, cx: u32, cy: u32) -> Vertex {
    Vertex { x: cx, y: cy, z: (s.triangles_count - 1) as usize, color: s.vertex_color_picker }
}

/// The constant edge colour a new triangle starts with, if the option is
/// on.
pub open spec fn new_edges_color(s: State) -> Option<Rgb> {
    if s.constant_edges {
        Some(s.edges_color_picker)
    } else {
        None
    }
}

/// The creation handler, run once per frame.  While fewer than three
/// vertices are pending, an unsuppressed primary click appends one at the
/// cursor; once three are pending, they are sorted by ascending x and
/// stored as a fresh triangle, and the mode moves to modifying it.
pub fn creating(
    state: &mut State,
    store: &mut TriangleStore,
    left_just_pressed: bool,
    over_ui: bool,
    cursor: Option<(u32, u32)>,
    width: u32,
    height: u32,
)
    requires
        viewport_ok(width, height),
        state_wf(*old(state), width, height),
        old(store).wf(),
        match cursor {
            Option::Some(c) => c.0 < width && c.1 < height,
            Option::None => true,
        },
        old(state).triangles_count < usize::MAX,
        old(store).slots@.len() < usize::MAX,
    ensures
        state_wf(*final(state), width, height),
        final(store).wf(),
        old(state).function != Function::Create ==> *final(state) == *old(state) && *final(store)
            == *old(store),
        old(state).function == Function::Create && old(state).new_triangle@.len() < 3
            ==> *final(store) == *old(store) && (if left_just_pressed && !over_ui && cursor is Some {
            *final(state) == (State {
                new_triangle: final(state).new_triangle,
                spawn_vertex_selectors: true,
                ..*old(state)
            }) && final(state).new_triangle@ == old(state).new_triangle@.push(
                click_vertex(*old(state), (cursor->0).0, (cursor->0).1),
            )
        } else {
            *final(state) == *old(state)
        }),
        old(state).function == Function::Create && old(state).new_triangle@.len() == 3 ==> {
            let id = EntityId { index: old(store).slots@.len() as usize };
            let t = final(store).tri(id);
            &&& final(store).live(id)
            &&& !old(store).live(id)
            &&& crate::triangles::sorted_by_x(t)
            &&& vertex_mset(t.first, t.middle, t.last) == vertex_mset(
                old(state).new_triangle@[0],
                old(state).new_triangle@[1],
                old(state).new_triangle@[2],
            )
            &&& t.redraw
            &&& t.index == old(state).triangles_count
            &&& t.edges_color == new_edges_color(*old(state))
            &&& final(store).slots@.len() == old(store).slots@.len() + 1
            &&& (forall|o: EntityId| old(store).live(o) ==> #[trigger] final(store).live(o))
            &&& (forall|o: EntityId| old(store).live(o) ==> (#[trigger] final(store).tri(o))
                == old(store).tri(o))
            &&& *final(state) == (State {
                function: Function::Modify(id),
                new_triangle: final(state).new_triangle,
                spawn_vertex_selectors: true,
                triangles_count: (old(state).triangles_count + 1) as usize,
                ..*old(state)
            })
            &&& final(state).new_triangle@.len() == 0
        },
{
    if state.function != Function::Create {
        return ;
    }
    if state.new_triangle.len() < 3 {
        if left_just_pressed && !over_ui {
            if let Some((cx, cy)) = cursor {
                let v = Vertex {
                    x: cx,
                    y: cy,
                    z: state.triangles_count - 1,
                    color: state.vertex_color_picker,
                };
                state.new_triangle.push(v);
                state.spawn_vertex_selectors = true;
            }
        }
    } else {
        let v0 = state.new_triangle[0];
        let v1 = state.new_triangle[1];
        let v2 = state.new_triangle[2];
        let edges_color = if state.constant_edges {
            Some(state.edges_color_picker)
        } else {
            None
        };
        let t = Triangle::from_pending(v0, v1, v2, edges_color, state.triangles_count);
        let id = store.insert(t);
        state.function = Function::Modify(id);
        state.new_triangle.clear();
        state.triangles_count = state.triangles_count + 1;
        state.spawn_vertex_selectors = true;
    }
}

/// The selection handler: an unsuppressed primary click in selection mode
/// picks the first stored triangle (in slot order) containing the click
/// and moves to modifying it; a click that hits nothing changes nothing.
pub fn selecting(
    state: &mut State,
    store: &TriangleStore,
    left_just_pressed: bool,
    over_ui: bool,
    cursor: Option<(u32, u32)>,
    width: u32,
    height: u32,
)
    requires
        viewport_ok(width, height),
        store.wf(),
        match cursor {
            Option::Some(c) => c.0 < width && c.1 < height,
            Option::None => true,
        },
    ensures
        !(old(state).function == Function::Select && left_just_pressed && !over_ui
            && cursor is Some) ==> *final(state) == *old(state),
        old(state).function == Function::Select && left_just_pressed && !over_ui && cursor is Some
            ==> {
            let cx = (cursor->0).0;
            let cy = (cursor->0).1;
            match final(state).function {
                Function::Modify(id) => {
                    &&& store.live(id)
                    &&& tri_hit(store.tri(id), cx, cy)
                    &&& (forall|o: EntityId| o.index < id.index && #[trigger] store.live(o)
                        ==> !tri_hit(store.tri(o), cx, cy))
                    &&& *final(state) == (State {
                        function: final(state).function,
                        spawn_vertex_selectors: true,
                        ..*old(state)
                    })
                },
                _ => {
                    &&& *final(state) == *old(state)
                    &&& (forall|o: EntityId| #[trigger] store.live(o) ==> !tri_hit(
                        store.tri(o),
                        cx,
                        cy,
                    ))
                },
            }
        },
{
    if state.function != Function::Select {
        return ;
    }
    if left_just_pressed && !over_ui {
        if let Some((cx, cy)) = cursor {
            if let Some(id) = store.first_hit(cx, cy) {
                state.function = Function::Modify(id);
                state.spawn_vertex_selectors = true;
            }
        }
    }
}

/// The click lands within eight pixels of the vertex along both axes
/// (independent thresholds, not Euclidean distance).
pub open spec fn hit8(cx: u32, cy: u32, v: Vertex) -> bool {
    abs_int(cx as int - v.x as int) < 8 && abs_int(cy as int - v.y as int) < 8
}

/// The vertex a secondary (recolour) click picks: the first hit in the
/// order first, middle, last.
pub open spec fn right_target(t: Triangle, cx: u32, cy: u32) -> Option<VertexOrder> {
    if hit8(cx, cy, t.first) {
        Some(VertexOrder::First)
    } else if hit8(cx, cy, t.middle) {
        Some(VertexOrder::Middle)
    } else if hit8(cx, cy, t.last) {
        Some(VertexOrder::Last)
    } else {
        None
    }
}

/// The vertex a primary (selection) click picks: each hit overrides the
/// previous, so the last hit in the order first, middle, last wins.
pub open spec fn select_target(t: Triangle, cx: u32, cy: u32) -> Option<VertexOrder> {
    if hit8(cx, cy, t.last) {
        Some(VertexOrder::Last)
    } else if hit8(cx, cy, t.middle) {
        Some(VertexOrder::Middle)
    } else if hit8(cx, cy, t.first) {
        Some(VertexOrder::First)
    } else {
        None
    }
}

/// The vertex a slot refers to.
pub open spec fn slot_vertex(t: Triangle, slot: VertexOrder) -> Vertex {
    match slot {
        VertexOrder::First => t.first,
        VertexOrder::Middle => t.middle,
        VertexOrder::Last => t.last,
    }
}

/// The triangle with one vertex recoloured and flagged for redraw;
/// positions stay put, so the ordering invariant is untouched.
pub open spec fn recolor(t: Triangle, slot: VertexOrder, c: Rgb) -> Triangle {
    match slot {
        VertexOrder::First => Triangle {
            first: Vertex { color: c, ..t.first },
            redraw: true,
            ..t
        },
        VertexOrder::Middle => Triangle {
            middle: Vertex { color: c, ..t.middle },
            redraw: true,
            ..t
        },
        VertexOrder::Last => Triangle { last: Vertex { color: c, ..t.last }, redraw: true, ..t },
    }
}

/// The vertex after a move: the cursor position with the stacking order
/// and colour it had.
pub open spec fn moved_vertex(t: Triangle, slot: VertexOrder, cx: u32, cy: u32) -> Vertex {
    Vertex { x: cx, y: cy, z: slot_vertex(t, slot).z, color: slot_vertex(t, slot).color }
}

/// Tests an eight-pixel hit on one vertex.
fn near_vertex(cx: u32, cy: u32, v: &Vertex) -> (b: bool)
    ensures
        b == hit8(cx, cy, *v),
{
    let dx = if cx >= v.x {
        cx - v.x
    } else {
        v.x - cx
    };
    let dy = if cy >= v.y {
        cy - v.y
    } else {
        v.y - cy
    };
    dx < 8 && dy < 8
}

/// Applies a secondary (recolour) click to the triangle: the first vertex
/// hit, in the order first, middle, last, takes the active colour.
fn apply_right_click(t: Triangle, picker: Rgb, cx: u32, cy: u32) -> (r: Triangle)
    ensures
        r == (if right_target(t, cx, cy) is Some {
            recolor(t, right_target(t, cx, cy)->0, picker)
        } else {
            t
        }),
{
    if near_vertex(cx, cy, &t.first) {
        Triangle { first: Vertex { color: picker, ..t.first }, redraw: true, ..t }
    } else if near_vertex(cx, cy, &t.middle) {
        Triangle { middle: Vertex { color: picker, ..t.middle }, redraw: true, ..t }
    } else if near_vertex(cx, cy, &t.last) {
        Triangle { last: Vertex { color: picker, ..t.last }, redraw: true, ..t }
    } else {
        t
    }
}

/// Finds the vertex a primary click selects: each hit overrides the
/// previous one.
fn find_select_target(t: &Triangle, cx: u32, cy: u32) -> (st: Option<VertexOrder>)
    ensures
        st == select_target(*t, cx, cy),
{
    let mut st: Option<VertexOrder> = None;
    if near_vertex(cx, cy, &t.first) {
        st = Some(VertexOrder::First);
    }
    if near_vertex(cx, cy, &t.middle) {
        st = Some(VertexOrder::Middle);
    }
    if near_vertex(cx, cy, &t.last) {
        st = Some(VertexOrder::Last);
    }
    st
}

/// The modification handler, run once per frame while a triangle is being
/// edited.  A secondary click near a vertex assigns it the active colour;
/// a primary click selects a vertex when none is selected, and moves the
/// selected vertex to the cursor — re-sorting the triangle by x — when one
/// is.  A dead handle (the triangle vanished) resets the mode to idle.
#[verifier::rlimit(50)]
pub fn modifying(
    state: &mut State,
    store: &mut TriangleStore,
    left_just_pressed: bool,
    right_just_pressed: bool,
    over_ui: bool,
    cursor: Option<(u32, u32)>,
    width: u32,
    height: u32,
)
    requires
        viewport_ok(width, height),
        state_wf(*old(state), width, height),
        old(store).wf(),
        match cursor {
            Option::Some(c) => c.0 < width && c.1 < height,
            Option::None => true,
        },
    ensures
        state_wf(*final(state), width, height),
        final(store).wf(),
        final(store).slots@.len() == old(store).slots@.len(),
        forall|o: EntityId| #[trigger] final(store).live(o) == old(store).live(o),
        !(old(state).function matches Function::Modify(_)) ==> *final(state) == *old(state)
            && *final(store) == *old(store),
        forall|e: EntityId|
            old(state).function == Function::Modify(e) && !old(store).live(e) ==> *final(state)
                == (State { function: Function::Idle, ..*old(state) })
                && *final(store) == *old(store),
        forall|e: EntityId| old(state).function == Function::Modify(e) && old(store).live(e) ==> {
            let t0 = old(store).tri(e);
            let cx = (cursor->0).0;
            let cy = (cursor->0).1;
            let right_active = right_just_pressed && !over_ui && cursor is Some;
            let rt = if right_active {
                right_target(t0, cx, cy)
            } else {
                None
            };
            let t1 = if rt is Some {
                recolor(t0, rt->0, old(state).vertex_color_picker)
            } else {
                t0
            };
            let left_active = left_just_pressed && !over_ui && cursor is Some;
            &&& final(state).function == Function::Modify(e)
            &&& (forall|o: EntityId| o != e && old(store).live(o)
                ==> (#[trigger] final(store).tri(o)) == old(store).tri(o))
            &&& (if left_active && old(state).selected_vertex is Some {
                let sel = old(state).selected_vertex->0;
                let t2 = final(store).tri(e);
                &&& crate::triangles::sorted_by_x(t2)
                &&& vertex_mset(t2.first, t2.middle, t2.last) == (match sel {
                    VertexOrder::First => vertex_mset(
                        moved_vertex(t1, sel, cx, cy),
                        t1.middle,
                        t1.last,
                    ),
                    VertexOrder::Middle => vertex_mset(
                        t1.first,
                        moved_vertex(t1, sel, cx, cy),
                        t1.last,
                    ),
                    VertexOrder::Last => vertex_mset(
                        t1.first,
                        t1.middle,
                        moved_vertex(t1, sel, cx, cy),
                    ),
                })
                &&& t2.redraw
                &&& t2.edges_color == t1.edges_color
                &&& t2.index == t1.index
                &&& final(state).selected_vertex is None
                &&& final(state).spawn_vertex_selectors
                &&& *final(state) == (State {
                    selected_vertex: None,
                    spawn_vertex_selectors: true,
                    ..*old(state)
                })
            } else if left_active {
                let st = select_target(t1, cx, cy);
                &&& final(store).tri(e) == t1
                &&& final(state).selected_vertex == st
                &&& final(state).spawn_vertex_selectors == (old(state).spawn_vertex_selectors
                    || rt is Some || st is Some)
                &&& *final(state) == (State {
                    selected_vertex: final(state).selected_vertex,
                    spawn_vertex_selectors: final(state).spawn_vertex_selectors,
                    ..*old(state)
                })
            } else {
                &&& final(store).tri(e) == t1
                &&& *final(state) == (State {
                    spawn_vertex_selectors: final(state).spawn_vertex_selectors,
                    ..*old(state)
                })
                &&& final(state).spawn_vertex_selectors == (old(state).spawn_vertex_selectors
                    || rt is Some)
            })
        },
{
    let e = match state.function {
        Function::Modify(e) => e,
        _ => {
            return ;
        },
    };
    let mut t = match store.get(e) {
        Some(t) => *t,
        None => {
            state.function = Function::Idle;
            return ;
        },
    };
    let active = !over_ui && cursor.is_some();
    if right_just_pressed && active {
        if let Some((cx, cy)) = cursor {
            let t1 = apply_right_click(t, state.vertex_color_picker, cx, cy);
            if near_vertex(cx, cy, &t.first) || near_vertex(cx, cy, &t.middle) || near_vertex(
                cx,
                cy,
                &t.last,
            ) {
                store.set(e, t1);
                state.spawn_vertex_selectors = true;
            }
            t = t1;
        }
    }
    if left_just_pressed && active {
        if let Some((cx, cy)) = cursor {
            match state.selected_vertex {
                Some(sel) => {
                    let old_v = match sel {
                        VertexOrder::First => t.first,
                        VertexOrder::Middle => t.middle,
                        VertexOrder::Last => t.last,
                    };
                    let moved = Vertex { x: cx, y: cy, z: old_v.z, color: old_v.color };
                    let t2 = t.with_vertex(sel, moved);
                    let t2 = Triangle { redraw: true, ..t2 };
                    store.set(e, t2);
                    state.selected_vertex = None;
                    state.spawn_vertex_selectors = true;
                },
                None => {
                    let st = find_select_target(&t, cx, cy);
                    if st.is_some() {
                        state.selected_vertex = st;
                        state.spawn_vertex_selectors = true;
                    }
                },
            }
        }
    }
}

/// The panel's "add a triangle" button: from idle, clears the pending
/// vertices and enters creation mode.
pub fn request_create(state: &mut State)
    ensures
        old(state).function == Function::Idle ==> *final(state) == (State {
            function: Function::Create,
            new_triangle: final(state).new_triangle,
            ..*old(state)
        }) && final(state).new_triangle@.len() == 0,
        old(state).function != Function::Idle ==> *final(state) == *old(state),
{
    if let Function::Idle = state.function {
        state.new_triangle.clear();
        state.function = Function::Create;
    }
}

/// The panel's "modify a triangle" button: from idle, enters selection
/// mode.
pub fn request_select(state: &mut State)
    ensures
        old(state).function == Function::Idle ==> *final(state) == (State {
            function: Function::Select,
            ..*old(state)
        }),
        old(state).function != Function::Idle ==> *final(state) == *old(state),
{
    if let Function::Idle = state.function {
        state.function = Function::Select;
    }
}

/// The panel's "back" button: always returns to idle.  Leaving creation
/// discards the pending vertices; leaving modification switches the
/// constant-edge-colour option off.  The overlay is refreshed so markers
/// disappear.
pub fn request_back(state: &mut State)
    ensures
        final(state).function == Function::Idle,
        final(state).new_triangle@.len() == 0 || old(state).function != Function::Create,
        old(state).function == Function::Create ==> *final(state) == (State {
            function: Function::Idle,
            new_triangle: final(state).new_triangle,
            spawn_vertex_selectors: true,
            ..*old(state)
        }),
        old(state).function == Function::Select || old(state).function == Function::Idle
            ==> *final(state) == (State { function: Function::Idle, ..*old(state) }),
        (old(state).function matches Function::Modify(_)) ==> *final(state) == (State {
            function: Function::Idle,
            constant_edges: false,
            spawn_vertex_selectors: true,
            ..*old(state)
        }),
{
    match state.function {
        Function::Create => {
            state.new_triangle.clear();
            state.spawn_vertex_selectors = true;
        },
        Function::Modify(_) => {
            state.constant_edges = false;
            state.spawn_vertex_selectors = true;
        },
        _ => {},
    }
    state.function = Function::Idle;
}

/// The panel's "delete" button: while modifying, removes the triangle
/// from the store for good and returns to idle.
pub fn request_delete(state: &mut State, store: &mut TriangleStore)
    requires
        old(store).wf(),
    ensures
        final(store).wf(),
        final(store).slots@.len() == old(store).slots@.len(),
        !(old(state).function matches Function::Modify(_)) ==> *final(state) == *old(state)
            && *final(store) == *old(store),
        forall|e: EntityId| old(state).function == Function::Modify(e) ==> {
            &&& !final(store).live(e)
            &&& (forall|o: EntityId| o.index != e.index
                ==> #[trigger] final(store).live(o) == old(store).live(o))
            &&& (forall|o: EntityId| o.index != e.index && old(store).live(o)
                ==> (#[trigger] final(store).tri(o)) == old(store).tri(o))
            &&& *final(state) == (State {
                function: Function::Idle,
                spawn_vertex_selectors: true,
                ..*old(state)
            })
        },
{
    if let Function::Modify(e) = state.function {
        store.remove(e);
        state.function = Function::Idle;
        state.spawn_vertex_selectors = true;
    }
}

/// The colour picker for new or recoloured vertices.
pub fn set_active_color(state: &mut State, c: Rgb)
    ensures
        *final(state) == (State { vertex_color_picker: c, ..*old(state) }),
{
    state.vertex_color_picker = c;
}

/// Shows or hides the property panel.
pub fn toggle_show_properties(state: &mut State, show: bool)
    ensures
        *final(state) == (State { show_properties_window: show, ..*old(state) }),
{
    state.show_properties_window = show;
}

/// The constant-edge-colour checkbox and its colour picker.  While a
/// triangle is being modified, a change writes the option through to the
/// triangle and flags it for redraw; otherwise only the pickers change.
pub fn set_edges_config(
    state: &mut State,
    store: &mut TriangleStore,
    constant_edges: bool,
    color: Rgb,
    changed: bool,
)
    requires
        old(store).wf(),
    ensures
        final(store).wf(),
        final(store).slots@.len() == old(store).slots@.len(),
        forall|o: EntityId| #[trigger] final(store).live(o) == old(store).live(o),
        *final(state) == (State {
            constant_edges,
            edges_color_picker: color,
            ..*old(state)
        }),
        forall|e: EntityId|
            !(changed && old(state).function == Function::Modify(e) && old(store).live(e))
                && old(store).live(e) ==> (#[trigger] final(store).tri(e)) == old(store).tri(e),
        forall|e: EntityId|
            changed && old(state).function == Function::Modify(e) && old(store).live(e)
                ==> (#[trigger] final(store).tri(e)) == (Triangle {
                edges_color: if constant_edges {
                    Some(color)
                } else {
                    None
                },
                redraw: true,
                ..old(store).tri(e)
            }),
{
    state.constant_edges = constant_edges;
    state.edges_color_picker = color;
    if changed {
        if let Function::Modify(e) = state.function {
            if let Some(t) = store.get(e) {
                let t2 = Triangle {
                    edges_color: if constant_edges {
                        Some(color)
                    } else {
                        None
                    },
                    redraw: true,
                    ..*t
                };
                store.set(e, t2);
            }
        }
    }
}

/// Clamps an edited coordinate into `[0, limit)`.
pub fn clamp_coord(v: u32, limit: u32) -> (r: u32)
    requires
        limit >= 1,
    ensures
        r == (if v >= limit {
            (limit - 1) as u32
        } else {
            v
        }),
        r < limit,
{
    if v >= limit {
        limit - 1
    } else {
        v
    }
}

/// The property panel's per-vertex "apply": if every field of the edited
/// vertex parsed, the position (clamped to the viewport) and colour are
/// written through, the triangle is re-sorted by x and flagged for
/// redraw, and the field-error flag clears; otherwise only the error flag
/// is raised.  Values arrive already parsed; a missing value means the
/// text did not parse.
#[verifier::rlimit(30)]
pub fn apply_vertex_fields(
    state: &mut State,
    store: &mut TriangleStore,
    slot: VertexOrder,
    x: Option<u32>,
    y: Option<u32>,
    cr: Option<u8>,
    cg: Option<u8>,
    cb: Option<u8>,
    width: u32,
    height: u32,
)
    requires
        viewport_ok(width, height),
        old(store).wf(),
    ensures
        final(store).wf(),
        final(store).slots@.len() == old(store).slots@.len(),
        forall|o: EntityId| #[trigger] final(store).live(o) == old(store).live(o),
        !(old(state).function matches Function::Modify(_)) ==> *final(state) == *old(state)
            && *final(store) == *old(store),
        forall|e: EntityId|
            old(state).function == Function::Modify(e) && !old(store).live(e) ==> *final(state)
                == *old(state) && *final(store) == *old(store),
        forall|e: EntityId|
            old(state).function == Function::Modify(e) && old(store).live(e) ==> {
                let t0 = old(store).tri(e);
                let parsed = x is Some && y is Some && cr is Some && cg is Some && cb is Some;
                &&& (forall|o: EntityId| o != e && old(store).live(o)
                    ==> (#[trigger] final(store).tri(o)) == old(store).tri(o))
                &&& (if parsed {
                    let nv = Vertex {
                        x: if x->0 >= width { (width - 1) as u32 } else { x->0 },
                        y: if y->0 >= height { (height - 1) as u32 } else { y->0 },
                        z: slot_vertex(t0, slot).z,
                        color: Rgb { r: cr->0, g: cg->0, b: cb->0 },
                    };
                    let t2 = final(store).tri(e);
                    &&& crate::triangles::sorted_by_x(t2)
                    &&& vertex_mset(t2.first, t2.middle, t2.last) == (match slot {
                        VertexOrder::First => vertex_mset(nv, t0.middle, t0.last),
                        VertexOrder::Middle => vertex_mset(t0.first, nv, t0.last),
                        VertexOrder::Last => vertex_mset(t0.first, t0.middle, nv),
                    })
                    &&& t2.redraw
                    &&& t2.edges_color == t0.edges_color
                    &&& t2.index == t0.index
                    &&& *final(state) == (State {
                        spawn_vertex_selectors: true,
                        first_vertex_string_parsing_error: final(state).first_vertex_string_parsing_error,
                        middle_vertex_string_parsing_error: final(state).middle_vertex_string_parsing_error,
                        last_vertex_string_parsing_error: final(state).last_vertex_string_parsing_error,
                        ..*old(state)
                    })
                    &&& vertex_error_flag(*final(state), slot) == false
                    &&& (forall|s2: VertexOrder| s2 != slot ==> #[trigger] vertex_error_flag(
                        *final(state),
                        s2,
                    ) == vertex_error_flag(*old(state), s2))
                } else {
                    &&& final(store).tri(e) == t0
                    &&& *final(state) == (State {
                        first_vertex_string_parsing_error: final(state).first_vertex_string_parsing_error,
                        middle_vertex_string_parsing_error: final(state).middle_vertex_string_parsing_error,
                        last_vertex_string_parsing_error: final(state).last_vertex_string_parsing_error,
                        ..*old(state)
                    })
                    &&& vertex_error_flag(*final(state), slot) == true
                    &&& (forall|s2: VertexOrder| s2 != slot ==> #[trigger] vertex_error_flag(
                        *final(state),
                        s2,
                    ) == vertex_error_flag(*old(state), s2))
                })
            },
{
    let e = match state.function {
        Function::Modify(e) => e,
        _ => {
            return ;
        },
    };
    let t = match store.get(e) {
        Some(t) => *t,
        None => {
            return ;
        },
    };
    if let (Some(xv), Some(yv), Some(rv), Some(gv), Some(bv)) = (x, y, cr, cg, cb) {
        let nv = Vertex {
            x: clamp_coord(xv, width),
            y: clamp_coord(yv, height),
            z: match slot {
                VertexOrder::First => t.first.z,
                VertexOrder::Middle => t.middle.z,
                VertexOrder::Last => t.last.z,
            },
            color: Rgb { r: rv, g: gv, b: bv },
        };
        let t2 = t.with_vertex(slot, nv);
        let t2 = Triangle { redraw: true, ..t2 };
        store.set(e, t2);
        state.spawn_vertex_selectors = true;
        match slot {
            VertexOrder::First => state.first_vertex_string_parsing_error = false,
            VertexOrder::Middle => state.middle_vertex_string_parsing_error = false,
            VertexOrder::Last => state.last_vertex_string_parsing_error = false,
        }
    } else {
        match slot {
            VertexOrder::First => state.first_vertex_string_parsing_error = true,
            VertexOrder::Middle => state.middle_vertex_string_parsing_error = true,
            VertexOrder::Last => state.last_vertex_string_parsing_error = true,
        }
    }
}

/// The panel intent that moves one vertex of the edited triangle to a
/// given position, clamped to the viewport; the triangle is re-sorted by
/// x and flagged for redraw.
pub fn set_vertex_position(
    state: &mut State,
    store: &mut TriangleStore,
    slot: VertexOrder,
    x: u32,
    y: u32,
    width: u32,
    height: u32,
)
    requires
        viewport_ok(width, height),
        old(store).wf(),
    ensures
        final(store).wf(),
        final(store).slots@.len() == old(store).slots@.len(),
        forall|o: EntityId| #[trigger] final(store).live(o) == old(store).live(o),
        !(old(state).function matches Function::Modify(_)) ==> *final(state) == *old(state)
            && *final(store) == *old(store),
        forall|e: EntityId|
            old(state).function == Function::Modify(e) && !old(store).live(e) ==> *final(state)
                == *old(state) && *final(store) == *old(store),
        forall|e: EntityId|
            old(state).function == Function::Modify(e) && old(store).live(e) ==> {
                let t0 = old(store).tri(e);
                let nv = Vertex {
                    x: if x >= width {
                        (width - 1) as u32
                    } else {
                        x
                    },
                    y: if y >= height {
                        (height - 1) as u32
                    } else {
                        y
                    },
                    z: slot_vertex(t0, slot).z,
                    color: slot_vertex(t0, slot).color,
                };
                let t2 = final(store).tri(e);
                &&& (forall|o: EntityId| o != e && old(store).live(o)
                    ==> (#[trigger] final(store).tri(o)) == old(store).tri(o))
                &&& crate::triangles::sorted_by_x(t2)
                &&& vertex_mset(t2.first, t2.middle, t2.last) == (match slot {
                    VertexOrder::First => vertex_mset(nv, t0.middle, t0.last),
                    VertexOrder::Middle => vertex_mset(t0.first, nv, t0.last),
                    VertexOrder::Last => vertex_mset(t0.first, t0.middle, nv),
                })
                &&& t2.redraw
                &&& t2.edges_color == t0.edges_color
                &&& t2.index == t0.index
                &&& *final(state) == (State { spawn_vertex_selectors: true, ..*old(state) })
            },
{
    let e = match state.function {
        Function::Modify(e) => e,
        _ => {
            return ;
        },
    };
    let t = match store.get(e) {
        Some(t) => *t,
        None => {
            return ;
        },
    };
    let old_v = match slot {
        VertexOrder::First => t.first,
        VertexOrder::Middle => t.middle,
        VertexOrder::Last => t.last,
    };
    let nv = Vertex {
        x: clamp_coord(x, width),
        y: clamp_coord(y, height),
        z: old_v.z,
        color: old_v.color,
    };
    let t2 = t.with_vertex(slot, nv);
    let t2 = Triangle { redraw: true, ..t2 };
    store.set(e, t2);
    state.spawn_vertex_selectors = true;
}

/// The panel intent that recolours one vertex of the edited triangle and
/// flags it for redraw; positions stay put, so the ordering invariant is
/// untouched.
pub fn set_vertex_color(state: &mut State, store: &mut TriangleStore, slot: VertexOrder, c: Rgb)
    requires
        old(store).wf(),
    ensures
        final(store).wf(),
        final(store).slots@.len() == old(store).slots@.len(),
        forall|o: EntityId| #[trigger] final(store).live(o) == old(store).live(o),
        !(old(state).function matches Function::Modify(_)) ==> *final(state) == *old(state)
            && *final(store) == *old(store),
        forall|e: EntityId|
            old(state).function == Function::Modify(e) && !old(store).live(e) ==> *final(state)
                == *old(state) && *final(store) == *old(store),
        forall|e: EntityId|
            old(state).function == Function::Modify(e) && old(store).live(e) ==> {
                &&& (forall|o: EntityId| o != e && old(store).live(o)
                    ==> (#[trigger] final(store).tri(o)) == old(store).tri(o))
                &&& final(store).tri(e) == recolor(old(store).tri(e), slot, c)
                &&& *final(state) == (State { spawn_vertex_selectors: true, ..*old(state) })
            },
{
    let e = match state.function {
        Function::Modify(e) => e,
        _ => {
            return ;
        },
    };
    let t = match store.get(e) {
        Some(t) => *t,
        None => {
            return ;
        },
    };
    let t2 = match slot {
        VertexOrder::First => Triangle {
            first: Vertex { color: c, ..t.first },
            redraw: true,
            ..t
        },
        VertexOrder::Middle => Triangle {
            middle: Vertex { color: c, ..t.middle },
            redraw: true,
            ..t
        },
        VertexOrder::Last => Triangle { last: Vertex { color: c, ..t.last }, redraw: true, ..t },
    };
    store.set(e, t2);
    state.spawn_vertex_selectors = true;
}

/// The parse-error flag of one vertex's property fields.
pub open spec fn vertex_error_flag(s: State, slot: VertexOrder) -> bool {
    match slot {
        VertexOrder::First => s.first_vertex_string_parsing_error,
        VertexOrder::Middle => s.middle_vertex_string_parsing_error,
        VertexOrder::Last => s.last_vertex_string_parsing_error,
    }
}

/// The property panel's "apply" for the constant edge colour: if all
/// three channels parsed, the picker and the triangle's edge colour take
/// the value and the triangle is flagged for redraw; otherwise only the
/// error flag is raised.
pub fn apply_edges_fields(
    state: &mut State,
    store: &mut TriangleStore,
    cr: Option<u8>,
    cg: Option<u8>,
    cb: Option<u8>,
)
    requires
        old(store).wf(),
    ensures
        final(store).wf(),
        final(store).slots@.len() == old(store).slots@.len(),
        forall|o: EntityId| #[trigger] final(store).live(o) == old(store).live(o),
        !(old(state).function matches Function::Modify(_)) ==> *final(state) == *old(state)
            && *final(store) == *old(store),
        forall|e: EntityId|
            old(state).function == Function::Modify(e) && !old(store).live(e) ==> *final(state)
                == *old(state) && *final(store) == *old(store),
        forall|e: EntityId|
            old(state).function == Function::Modify(e) && old(store).live(e) ==> {
                let parsed = cr is Some && cg is Some && cb is Some;
                &&& (forall|o: EntityId| o != e && old(store).live(o)
                    ==> (#[trigger] final(store).tri(o)) == old(store).tri(o))
                &&& (if parsed {
                    let c = Rgb { r: cr->0, g: cg->0, b: cb->0 };
                    &&& final(store).tri(e) == (Triangle {
                        edges_color: Some(c),
                        redraw: true,
                        ..old(store).tri(e)
                    })
                    &&& *final(state) == (State {
                        edges_color_picker: c,
                        spawn_vertex_selectors: true,
                        edges_string_parsing_error: false,
                        ..*old(state)
                    })
                } else {
                    &&& final(store).tri(e) == old(store).tri(e)
                    &&& *final(state) == (State {
                        edges_string_parsing_error: true,
                        ..*old(state)
                    })
                })
            },
{
    let e = match state.function {
        Function::Modify(e) => e,
        _ => {
            return ;
        },
    };
    let t = match store.get(e) {
        Some(t) => *t,
        None => {
            return ;
        },
    };
    if let (Some(rv), Some(gv), Some(bv)) = (cr, cg, cb) {
        let c = Rgb { r: rv, g: gv, b: bv };
        let t2 = Triangle { edges_color: Some(c), redraw: true, ..t };
        store.set(e, t2);
        state.edges_color_picker = c;
        state.spawn_vertex_selectors = true;
        state.edges_string_parsing_error = false;
    } else {
        state.edges_string_parsing_error = true;
    }
}

/// Once a triangle has been deleted its handle is dead, and a selection
/// hit test can never bring the editor back to it: whatever triangle a
/// click selects, it is not the deleted one.
pub proof fn lemma_deleted_never_selected(
    store: TriangleStore,
    e: EntityId,
    id: EntityId,
    cx: u32,
    cy: u32,
)
    requires
        !store.live(e),
        store.live(id),
        tri_hit(store.tri(id), cx, cy),
    ensures
        id != e,
{
}

} // verus!
