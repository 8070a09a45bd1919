use compositor_core::geometry::{Point, Size};
use compositor_core::space::MappedWindow;
use compositor_core::state::{Action, State};
use compositor_core::window::{toggle_floating, Float, SavedGeometry, Window, WindowKind};

fn managed(id: u64, surface: u64) -> Window {
    Window { id, surface, kind: WindowKind::Managed }
}

fn state_with_output() -> State {
    let mut st = State::new();
    st.space
        .map_output(1, compositor_core::geometry::Rect::new(0, 0, 1920, 1080));
    st.focus_state.focused_output = Some(1);
    st
}

fn floating_of(st: &State, id: u64) -> Float {
    match st.get_window_state(id) {
        Some(ws) => ws.floating,
        None => Float::Tiled(None),
    }
}

fn relayout_count(actions: &[Action]) -> usize {
    actions
        .iter()
        .filter(|a| matches!(a, Action::ReLayout(_)))
        .count()
}

#[test]
fn tiled_none_roundtrip_restores_edge_flags() {
    // A window tiled with no remembered floating placement, toggled to
    // floating and back: edge flags return to set, one re-layout per
    // transition, and no saved geometry is consulted on the way.
    let mut st = state_with_output();
    let w = managed(1, 101);
    st.space.map_element(w, Point::new(12, 34), false);
    st.set_current_size(1, Size::new(640, 480));

    let a1 = toggle_floating(&mut st, w);
    assert!(matches!(floating_of(&st, 1), Float::Floating));
    let p1 = st.toplevel(1).pending;
    assert!(!p1.tiled_top && !p1.tiled_bottom && !p1.tiled_left && !p1.tiled_right);
    assert_eq!(a1, vec![Action::ReLayout(1)]);
    assert_eq!(relayout_count(&a1), 1);
    // no size request, no re-mapping
    assert_eq!(p1.size, None);
    assert_eq!(st.space.element_location(1), Some(Point::new(12, 34)));

    let a2 = toggle_floating(&mut st, w);
    assert!(matches!(floating_of(&st, 1), Float::Tiled(Some(_))));
    let p2 = st.toplevel(1).pending;
    assert!(p2.tiled_top && p2.tiled_bottom && p2.tiled_left && p2.tiled_right);
    assert_eq!(a2, vec![Action::ReLayout(1)]);
    assert_eq!(relayout_count(&a2), 1);
    assert_eq!(p2.size, None);
    assert_eq!(st.space.element_location(1), Some(Point::new(12, 34)));
}

#[test]
fn floating_placement_captured_then_restored_exactly() {
    // A floating window at (5, 6) showing 300x200, tiled and floated again:
    // the remembered placement is restored exactly.
    let mut st = state_with_output();
    let w = managed(1, 101);
    st.space.map_element(w, Point::new(5, 6), false);
    st.set_window_floating(1, Float::Floating);
    st.set_current_size(1, Size::new(300, 200));

    let a1 = toggle_floating(&mut st, w);
    assert_eq!(
        floating_of(&st, 1),
        Float::Tiled(Some(SavedGeometry { loc: Point::new(5, 6), size: Size::new(300, 200) }))
    );
    assert_eq!(a1, vec![Action::ReLayout(1)]);
    let p1 = st.toplevel(1).pending;
    assert!(p1.tiled_top && p1.tiled_bottom && p1.tiled_left && p1.tiled_right);

    // the layout engine would now move the tiled window elsewhere
    st.space.map_element(w, Point::new(900, 900), false);

    let a2 = toggle_floating(&mut st, w);
    assert!(matches!(floating_of(&st, 1), Float::Floating));
    // restored placement equals (loc, size) exactly
    assert_eq!(st.space.element_location(1), Some(Point::new(5, 6)));
    assert_eq!(st.toplevel(1).pending.size, Some(Size::new(300, 200)));
    assert_eq!(a2, vec![Action::SendConfigure(1), Action::ReLayout(1)]);
    // re-mapped without activating
    let p2 = st.toplevel(1).pending;
    assert!(!p2.tiled_top && !p2.tiled_bottom && !p2.tiled_left && !p2.tiled_right);
}

#[test]
fn deferred_raise_waits_for_commits() {
    // The stacking-order raise fires only once the windows visible on the
    // output have committed a frame after the toggle.
    let mut st = state_with_output();
    st.set_focused_tags(1, vec![10]);
    let w1 = managed(1, 101);
    let w2 = managed(2, 102);
    st.space.map_element(w1, Point::new(0, 0), false);
    st.space.map_element(w2, Point::new(10, 0), false);
    st.set_window_tags(1, vec![10]);
    st.set_window_tags(2, vec![10]);

    // toggle the bottom window; w2 stays on top until the raise fires
    let _ = toggle_floating(&mut st, w1);
    let order_before: Vec<u64> = st.space.elements().iter().map(|m| m.window.id).collect();
    assert_eq!(order_before, vec![1, 2]);

    // no commits yet: the idle pass must keep the deferred raise queued
    st.run_idle();
    let order_still: Vec<u64> = st.space.elements().iter().map(|m| m.window.id).collect();
    assert_eq!(order_still, vec![1, 2]);

    // only one of the two visible windows committed: still waiting
    st.notify_commit(1);
    st.run_idle();
    let order_one: Vec<u64> = st.space.elements().iter().map(|m| m.window.id).collect();
    assert_eq!(order_one, vec![1, 2]);

    // both committed: the raise fires and w1 ends on top
    st.notify_commit(2);
    st.run_idle();
    let order_after: Vec<u64> = st.space.elements().iter().map(|m| m.window.id).collect();
    assert_eq!(order_after, vec![2, 1]);
}

#[test]
fn reentrant_toggle_before_raise_is_harmless() {
    // Toggling again before the deferred raise fires re-enters the machine
    // with the latest state; the stale raise then acts on whatever the
    // window currently is.
    let mut st = state_with_output();
    let w1 = managed(1, 101);
    st.space.map_element(w1, Point::new(0, 0), false);
    st.set_window_floating(1, Float::Floating);
    let _ = toggle_floating(&mut st, w1); // now tiled
    let entry = st.space.elements().first().copied();
    assert!(matches!(
        entry,
        Some(MappedWindow { window: Window { id: 1, .. }, .. })
    ));
    let _ = toggle_floating(&mut st, w1); // floating again, raise still queued twice
    st.notify_commit(1);
    st.run_idle();
    // both raises fired without harm; the window is still the only one mapped
    let order: Vec<u64> = st.space.elements().iter().map(|m| m.window.id).collect();
    assert_eq!(order, vec![1]);
    assert!(matches!(floating_of(&st, 1), Float::Floating));
}
