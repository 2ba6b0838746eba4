use triangle_editor::color::Rgb;
use triangle_editor::overlay::spawn_vertex_selectors;
use triangle_editor::state::{
    creating, modifying, request_create, set_active_color, setup_state, Function, State,
};
use triangle_editor::store::TriangleStore;
use triangle_editor::triangles::VertexOrder;

const W: u32 = 800;
const H: u32 = 600;

fn created() -> (State, TriangleStore) {
    let mut state = setup_state();
    let mut store = TriangleStore::new();
    request_create(&mut state);
    set_active_color(&mut state, Rgb { r: 255, g: 0, b: 0 });
    creating(&mut state, &mut store, true, false, Some((10, 10)), W, H);
    creating(&mut state, &mut store, true, false, Some((50, 80)), W, H);
    creating(&mut state, &mut store, true, false, Some((90, 10)), W, H);
    creating(&mut state, &mut store, false, false, None, W, H);
    (state, store)
}

#[test]
fn no_markers_without_the_dirty_flag() {
    let mut state = setup_state();
    let store = TriangleStore::new();
    assert!(spawn_vertex_selectors(&mut state, &store).is_none());
}

#[test]
fn markers_in_modify_mode_cover_all_three_vertices() {
    let (mut state, store) = created();
    assert!(state.spawn_vertex_selectors);
    let markers = spawn_vertex_selectors(&mut state, &store).expect("the flag was set");
    assert!(!state.spawn_vertex_selectors);
    assert_eq!(markers.len(), 9);
    // Per vertex: a black ring of radius nine, a white ring of radius
    // eight, then the vertex colour at radius seven.
    let radii: Vec<u32> = markers.iter().map(|m| m.radius).collect();
    assert_eq!(radii, vec![9, 8, 7, 9, 8, 7, 9, 8, 7]);
    let zs: Vec<u32> = markers.iter().map(|m| m.z).collect();
    assert_eq!(zs, vec![100, 101, 102, 103, 104, 105, 106, 107, 108]);
    assert_eq!((markers[0].x, markers[0].y), (10, 10));
    assert_eq!(markers[0].color, Rgb { r: 0, g: 0, b: 0 });
    assert_eq!(markers[1].color, Rgb { r: 255, g: 255, b: 255 });
    assert_eq!(markers[2].color, Rgb { r: 255, g: 0, b: 0 });
    assert_eq!((markers[3].x, markers[3].y), (50, 80));
    assert_eq!((markers[6].x, markers[6].y), (90, 10));
}

#[test]
fn selected_vertex_marker_shrinks() {
    let (mut state, mut store) = created();
    // Select `first` with a nearby primary click, then rebuild the overlay.
    modifying(&mut state, &mut store, true, false, false, Some((12, 12)), W, H);
    assert_eq!(state.selected_vertex, Some(VertexOrder::First));
    let markers = spawn_vertex_selectors(&mut state, &store).expect("the flag was set");
    let radii: Vec<u32> = markers.iter().map(|m| m.radius).collect();
    assert_eq!(radii, vec![9, 8, 4, 9, 8, 7, 9, 8, 7]);
}

#[test]
fn markers_while_creating_follow_the_pending_clicks() {
    let mut state = setup_state();
    let mut store = TriangleStore::new();
    request_create(&mut state);
    creating(&mut state, &mut store, true, false, Some((30, 40)), W, H);
    let markers = spawn_vertex_selectors(&mut state, &store).expect("the flag was set");
    assert_eq!(markers.len(), 3);
    assert!(markers.iter().all(|m| (m.x, m.y) == (30, 40)));
    assert!(markers.iter().all(|m| m.order == VertexOrder::First));
}

#[test]
fn idle_mode_wants_no_markers() {
    let mut state = setup_state();
    let store = TriangleStore::new();
    state.spawn_vertex_selectors = true;
    let markers = spawn_vertex_selectors(&mut state, &store).expect("the flag was set");
    assert!(markers.is_empty());
}
