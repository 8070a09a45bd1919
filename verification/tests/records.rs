use compositor_core::geometry::{Point, Rect};
use compositor_core::state::{ResizeState, State, WlSurfaceState};
use compositor_core::window::{Window, WindowKind};

fn managed(id: u64, surface: u64) -> Window {
    Window { id, surface, kind: WindowKind::Managed }
}

fn foreign(id: u64, surface: u64) -> Window {
    Window { id, surface, kind: WindowKind::Foreign }
}

#[test]
fn window_for_surface_searches_managed_then_foreign() {
    let mut st = State::new();
    let m = managed(1, 101);
    let f = foreign(2, 202);
    st.space.map_element(m, Point::new(0, 0), false);
    st.add_foreign_window(f);

    assert_eq!(st.window_for_surface(&101), Some(m));
    assert_eq!(st.window_for_surface(&202), Some(f));
    assert_eq!(st.window_for_surface(&999), None);
}

#[test]
fn foreign_surface_never_resolves_via_managed_registry() {
    // The disjointness invariant holds and the lookup is unambiguous.
    let mut st = State::new();
    st.space.map_element(managed(1, 101), Point::new(0, 0), false);
    st.space.map_element(managed(2, 102), Point::new(0, 0), false);
    st.add_foreign_window(foreign(3, 303));
    st.add_foreign_window(foreign(4, 304));

    for f in [foreign(3, 303), foreign(4, 304)] {
        let found = st.window_for_surface(&f.surface).unwrap();
        assert_eq!(found.kind, WindowKind::Foreign);
        assert_eq!(found, f);
    }
    for (id, s) in [(1u64, 101u64), (2, 102)] {
        let found = st.window_for_surface(&s).unwrap();
        assert_eq!(found.kind, WindowKind::Managed);
        assert_eq!(found.id, id);
    }
}

#[test]
fn records_are_created_lazily_with_defaults() {
    let st = State::new();
    // never-touched records read as defaults
    let t = st.toplevel(5);
    assert_eq!(t.commit_count, 0);
    assert!(!t.acked_fullscreen);
    assert_eq!(t.pending.size, None);
    assert!(st.get_window_state(5).is_none());
    assert!(st.get_output_state(5).is_none());
    assert_eq!(
        st.surface_state(5),
        WlSurfaceState { resize_state: ResizeState::Idle }
    );
}

#[test]
fn surface_record_round_trip() {
    let mut st = State::new();
    st.set_surface_state(9, WlSurfaceState { resize_state: ResizeState::Resizing });
    assert_eq!(
        st.surface_state(9),
        WlSurfaceState { resize_state: ResizeState::Resizing }
    );
    assert_eq!(
        st.surface_state(10),
        WlSurfaceState { resize_state: ResizeState::Idle }
    );
}

#[test]
fn config_reload_clears_all_focused_tags() {
    let mut st = State::new();
    st.space.map_output(1, Rect::new(0, 0, 800, 600));
    st.space.map_output(2, Rect::new(800, 0, 800, 600));
    st.set_focused_tags(1, vec![10, 11]);
    st.set_focused_tags(2, vec![12]);
    st.clear_output_records();
    assert!(st.get_output_state(1).is_none());
    assert!(st.get_output_state(2).is_none());
}

#[test]
fn has_window_id_sees_both_collections() {
    let mut st = State::new();
    st.space.map_element(managed(1, 101), Point::new(0, 0), false);
    st.add_foreign_window(foreign(2, 202));
    assert!(st.has_window_id(1));
    assert!(st.has_window_id(2));
    assert!(!st.has_window_id(3));
}

#[test]
fn output_geometry_lookup() {
    let mut st = State::new();
    st.space.map_output(1, Rect::new(0, 0, 800, 600));
    st.space.map_output(1, Rect::new(0, 0, 1024, 768)); // re-mapping replaces
    assert_eq!(st.space.output_geometry(1), Some(Rect::new(0, 0, 1024, 768)));
    assert_eq!(st.space.output_geometry(2), None);
}
