use triangle_editor::color::Rgb;
use triangle_editor::state::{
    apply_edges_fields, apply_vertex_fields, creating, modifying, request_back, request_create,
    request_delete, request_select, selecting, set_active_color, set_edges_config, setup_state,
    Function, State,
};
use triangle_editor::store::{EntityId, TriangleStore};
use triangle_editor::triangles::VertexOrder;
use triangle_editor::flip_y;

const W: u32 = 800;
const H: u32 = 600;

fn click(state: &mut State, store: &mut TriangleStore, x: u32, y: u32) {
    creating(state, store, true, false, Some((x, y)), W, H);
}

/// Builds the editor state after the three creation clicks of a triangle
/// with one red, one green and one blue corner.
fn created_triangle() -> (State, TriangleStore, EntityId) {
    let mut state = setup_state();
    let mut store = TriangleStore::new();
    request_create(&mut state);
    set_active_color(&mut state, Rgb { r: 255, g: 0, b: 0 });
    click(&mut state, &mut store, 10, 10);
    set_active_color(&mut state, Rgb { r: 0, g: 255, b: 0 });
    click(&mut state, &mut store, 50, 80);
    set_active_color(&mut state, Rgb { r: 0, g: 0, b: 255 });
    click(&mut state, &mut store, 90, 10);
    // The completed trio is stored on the next frame's pass.
    creating(&mut state, &mut store, false, false, None, W, H);
    let id = match state.function {
        Function::Modify(id) => id,
        _ => panic!("creation should end in modify mode"),
    };
    (state, store, id)
}

#[test]
fn flip_y_converts_screen_rows() {
    assert_eq!(flip_y(10, 600), 590);
    assert_eq!(flip_y(600, 600), 0);
    assert_eq!(flip_y(0, 600), 599);
    assert_eq!(flip_y(601, 600), 0);
}

#[test]
fn three_clicks_store_a_sorted_triangle() {
    let (state, store, id) = created_triangle();
    let t = *store.get(id).expect("the new triangle is live");
    assert_eq!(t.first.x, 10);
    assert_eq!(t.middle.x, 50);
    assert_eq!(t.last.x, 90);
    assert_eq!(t.first.color, Rgb { r: 255, g: 0, b: 0 });
    assert_eq!(t.middle.color, Rgb { r: 0, g: 255, b: 0 });
    assert_eq!(t.last.color, Rgb { r: 0, g: 0, b: 255 });
    assert!(t.redraw);
    assert_eq!(t.index, 1);
    assert!(state.new_triangle.is_empty());
    assert_eq!(state.triangles_count, 2);
}

#[test]
fn clicks_over_the_panel_are_ignored() {
    let mut state = setup_state();
    let mut store = TriangleStore::new();
    request_create(&mut state);
    creating(&mut state, &mut store, true, true, Some((10, 10)), W, H);
    assert!(state.new_triangle.is_empty());
}

#[test]
fn out_of_creation_clicks_change_nothing() {
    let mut state = setup_state();
    let mut store = TriangleStore::new();
    click(&mut state, &mut store, 10, 10);
    assert!(state.new_triangle.is_empty());
    assert_eq!(store.slot_count(), 0);
}

#[test]
fn select_then_move_relocates_and_resorts() {
    let (mut state, mut store, id) = created_triangle();
    // First click: within eight pixels of `first`'s position selects it.
    modifying(&mut state, &mut store, true, false, false, Some((12, 12)), W, H);
    assert_eq!(state.selected_vertex, Some(VertexOrder::First));
    // Second click: the selected vertex moves to the cursor and the
    // triangle is re-sorted by x.
    modifying(&mut state, &mut store, true, false, false, Some((200, 200)), W, H);
    let t = *store.get(id).unwrap();
    assert_eq!(state.selected_vertex, None);
    assert!(t.redraw);
    assert_eq!((t.first.x, t.first.y), (50, 80));
    assert_eq!((t.middle.x, t.middle.y), (90, 10));
    assert_eq!((t.last.x, t.last.y), (200, 200));
    assert_eq!(t.last.color, Rgb { r: 255, g: 0, b: 0 });
}

#[test]
fn far_click_selects_nothing() {
    let (mut state, mut store, _) = created_triangle();
    modifying(&mut state, &mut store, true, false, false, Some((300, 300)), W, H);
    assert_eq!(state.selected_vertex, None);
}

#[test]
fn secondary_click_recolors_a_vertex() {
    let (mut state, mut store, id) = created_triangle();
    set_active_color(&mut state, Rgb { r: 7, g: 7, b: 7 });
    modifying(&mut state, &mut store, false, true, false, Some((53, 75)), W, H);
    let t = *store.get(id).unwrap();
    assert_eq!(t.middle.color, Rgb { r: 7, g: 7, b: 7 });
    assert_eq!(t.first.color, Rgb { r: 255, g: 0, b: 0 });
    assert!(t.redraw);
}

#[test]
fn deleting_removes_the_triangle_and_returns_to_idle() {
    let (mut state, mut store, id) = created_triangle();
    request_delete(&mut state, &mut store);
    assert_eq!(state.function, Function::Idle);
    assert!(store.get(id).is_none());
    // A later selection click at the former location hits nothing.
    request_select(&mut state);
    selecting(&mut state, &store, true, false, Some((50, 30)), W, H);
    assert_eq!(state.function, Function::Select);
}

#[test]
fn selection_click_picks_the_first_containing_triangle() {
    let (mut state, mut store, id) = created_triangle();
    request_back(&mut state);
    request_select(&mut state);
    selecting(&mut state, &mut store, true, false, Some((50, 30)), W, H);
    assert_eq!(state.function, Function::Modify(id));
}

#[test]
fn selection_click_outside_every_triangle_stays_selecting() {
    let (mut state, mut store, _) = created_triangle();
    request_back(&mut state);
    request_select(&mut state);
    selecting(&mut state, &mut store, true, false, Some((700, 500)), W, H);
    assert_eq!(state.function, Function::Select);
}

#[test]
fn dead_handle_resets_to_idle() {
    let (mut state, mut store, id) = created_triangle();
    store.remove(id);
    modifying(&mut state, &mut store, false, false, false, None, W, H);
    assert_eq!(state.function, Function::Idle);
}

#[test]
fn back_from_creation_discards_pending_vertices() {
    let mut state = setup_state();
    let mut store = TriangleStore::new();
    request_create(&mut state);
    click(&mut state, &mut store, 10, 10);
    click(&mut state, &mut store, 20, 20);
    request_back(&mut state);
    assert_eq!(state.function, Function::Idle);
    assert!(state.new_triangle.is_empty());
    assert_eq!(store.slot_count(), 0);
}

#[test]
fn vertex_fields_apply_with_clamping() {
    let (mut state, mut store, id) = created_triangle();
    apply_vertex_fields(
        &mut state,
        &mut store,
        VertexOrder::First,
        Some(5000),
        Some(10),
        Some(1),
        Some(2),
        Some(3),
        W,
        H,
    );
    let t = *store.get(id).unwrap();
    assert!(!state.first_vertex_string_parsing_error);
    // x clamps to the right edge, which re-sorts the vertex to the back.
    assert_eq!((t.last.x, t.last.y), (799, 10));
    assert_eq!(t.last.color, Rgb { r: 1, g: 2, b: 3 });
    assert_eq!(t.first.x, 50);
    assert_eq!(t.middle.x, 90);
}

#[test]
fn unparsed_vertex_field_raises_the_error_flag() {
    let (mut state, mut store, id) = created_triangle();
    apply_vertex_fields(
        &mut state,
        &mut store,
        VertexOrder::Middle,
        Some(10),
        None,
        Some(1),
        Some(2),
        Some(3),
        W,
        H,
    );
    assert!(state.middle_vertex_string_parsing_error);
    assert!(!state.first_vertex_string_parsing_error);
    let t = *store.get(id).unwrap();
    assert_eq!(t.middle.x, 50);
}

#[test]
fn edges_fields_apply_a_constant_color() {
    let (mut state, mut store, id) = created_triangle();
    apply_edges_fields(&mut state, &mut store, Some(11), Some(22), Some(33));
    let t = *store.get(id).unwrap();
    assert_eq!(t.edges_color, Some(Rgb { r: 11, g: 22, b: 33 }));
    assert!(t.redraw);
    assert!(!state.edges_string_parsing_error);
    apply_edges_fields(&mut state, &mut store, Some(1), None, Some(3));
    assert!(state.edges_string_parsing_error);
}

#[test]
fn edges_config_writes_through_while_modifying() {
    let (mut state, mut store, id) = created_triangle();
    set_edges_config(&mut state, &mut store, true, Rgb { r: 4, g: 5, b: 6 }, true);
    assert_eq!(store.get(id).unwrap().edges_color, Some(Rgb { r: 4, g: 5, b: 6 }));
    set_edges_config(&mut state, &mut store, false, Rgb { r: 4, g: 5, b: 6 }, true);
    assert_eq!(store.get(id).unwrap().edges_color, None);
}

#[test]
fn new_triangle_takes_the_constant_edge_color_when_set() {
    let mut state = setup_state();
    let mut store = TriangleStore::new();
    request_create(&mut state);
    set_edges_config(&mut state, &mut store, true, Rgb { r: 9, g: 9, b: 9 }, false);
    click(&mut state, &mut store, 10, 10);
    click(&mut state, &mut store, 20, 20);
    click(&mut state, &mut store, 30, 30);
    creating(&mut state, &mut store, false, false, None, W, H);
    let id = match state.function {
        Function::Modify(id) => id,
        _ => panic!("creation should end in modify mode"),
    };
    assert_eq!(store.get(id).unwrap().edges_color, Some(Rgb { r: 9, g: 9, b: 9 }));
}

#[test]
fn redrawing_rasterizes_flagged_triangles_once() {
    let (_state, mut store, id) = created_triangle();
    let out = store.redrawing(64, 64);
    assert_eq!(out.len(), 1);
    assert_eq!(out[0].0, id);
    assert_eq!(out[0].1.len(), 64 * 64 * 4);
    assert!(!store.get(id).unwrap().redraw);
    let again = store.redrawing(64, 64);
    assert!(again.is_empty());
}

#[test]
fn set_vertex_position_clamps_and_resorts() {
    let (mut state, mut store, id) = created_triangle();
    triangle_editor::state::set_vertex_position(
        &mut state,
        &mut store,
        VertexOrder::First,
        900,
        700,
        W,
        H,
    );
    let t = *store.get(id).unwrap();
    assert_eq!((t.last.x, t.last.y), (799, 599));
    assert_eq!(t.last.color, Rgb { r: 255, g: 0, b: 0 });
    assert_eq!((t.first.x, t.middle.x), (50, 90));
    assert!(t.redraw);
}

#[test]
fn set_vertex_color_recolors_one_slot() {
    let (mut state, mut store, id) = created_triangle();
    triangle_editor::state::set_vertex_color(
        &mut state,
        &mut store,
        VertexOrder::Last,
        Rgb { r: 1, g: 2, b: 3 },
    );
    let t = *store.get(id).unwrap();
    assert_eq!(t.last.color, Rgb { r: 1, g: 2, b: 3 });
    assert_eq!(t.first.color, Rgb { r: 255, g: 0, b: 0 });
    assert_eq!((t.last.x, t.last.y), (90, 10));
    assert!(t.redraw);
}
