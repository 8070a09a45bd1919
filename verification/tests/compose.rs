use compositor_core::geometry::{Point, Rect, Size};
use compositor_core::render::{
    generate_render_elements, layer_render_elements, CursorImageStatus, Layer, LayerSurface,
    RenderElement,
};
use compositor_core::state::State;
use compositor_core::window::{Float, FullscreenOrMaximized, Window, WindowKind};

fn managed(id: u64, surface: u64) -> Window {
    Window { id, surface, kind: WindowKind::Managed }
}

fn output_rect() -> Rect {
    Rect::new(0, 0, 1920, 1080)
}

fn base_state() -> State {
    let mut st = State::new();
    st.space.map_output(1, output_rect());
    st
}

const TAG_A: u64 = 10;
const TAG_B: u64 = 11;

#[test]
fn three_tiled_windows_two_active_tags() {
    // Output views tags A and B; three tiled windows tagged {A}, {B}, {A,B}.
    let mut st = base_state();
    st.set_focused_tags(1, vec![TAG_A, TAG_B]);
    let w1 = managed(1, 101);
    let w2 = managed(2, 102);
    let w3 = managed(3, 103);
    st.space.map_element(w1, Point::new(0, 0), false);
    st.space.map_element(w2, Point::new(100, 0), false);
    st.space.map_element(w3, Point::new(200, 0), false);
    st.set_window_tags(1, vec![TAG_A]);
    st.set_window_tags(2, vec![TAG_B]);
    st.set_window_tags(3, vec![TAG_A, TAG_B]);

    let mut cursor = CursorImageStatus::Default;
    let r = generate_render_elements(
        &st,
        Point::new(-5000, -5000), // pointer far outside: no cursor element
        &mut cursor,
        None,
        &vec![w1, w2, w3],
        &vec![TAG_A, TAG_B],
        1,
        None,
        &vec![],
    );
    // All three windows, stacking order: topmost (last mapped) first.
    assert_eq!(
        r,
        vec![
            RenderElement::Window { window: 3, loc: Point::new(200, 0) },
            RenderElement::Window { window: 2, loc: Point::new(100, 0) },
            RenderElement::Window { window: 1, loc: Point::new(0, 0) },
        ]
    );
}

#[test]
fn tag_filter_excludes_windows_without_viewed_tags() {
    let mut st = base_state();
    st.set_focused_tags(1, vec![TAG_A]);
    let w1 = managed(1, 101);
    let w2 = managed(2, 102);
    let w3 = managed(3, 103);
    st.space.map_element(w1, Point::new(0, 0), false);
    st.space.map_element(w2, Point::new(50, 0), false);
    st.space.map_element(w3, Point::new(90, 0), false);
    st.set_window_tags(1, vec![TAG_A]);
    st.set_window_tags(2, vec![TAG_B]); // tag B not viewed: excluded
    st.set_window_tags(3, vec![]); // untagged but floating: included
    st.set_window_floating(3, Float::Floating);

    let mut cursor = CursorImageStatus::Default;
    let r = generate_render_elements(
        &st,
        Point::new(-1, -1),
        &mut cursor,
        None,
        &vec![],
        &vec![TAG_A],
        1,
        None,
        &vec![],
    );
    assert_eq!(
        r,
        vec![
            RenderElement::Window { window: 3, loc: Point::new(90, 0) },
            RenderElement::Window { window: 1, loc: Point::new(0, 0) },
        ]
    );
}

#[test]
fn fullscreen_acknowledged_overrides_everything() {
    // One window fullscreen and acknowledged, tagged A, A active, most
    // recently focused: the frame is the overlays plus only that window.
    let mut st = base_state();
    st.set_focused_tags(1, vec![TAG_A]);
    let w1 = managed(1, 101);
    let w2 = managed(2, 102);
    st.space.map_element(w1, Point::new(0, 0), false);
    st.space.map_element(w2, Point::new(10, 10), false);
    st.set_window_tags(1, vec![TAG_A]);
    st.set_window_tags(2, vec![TAG_A]);
    st.set_fullscreen_or_maximized(2, FullscreenOrMaximized::Fullscreen);
    st.set_acked_fullscreen(2, true);

    let layers = vec![
        LayerSurface { surface: 900, layer: Layer::Background, loc: Some(Point::new(0, 0)) },
        LayerSurface { surface: 901, layer: Layer::Overlay, loc: Some(Point::new(0, 0)) },
    ];
    let mut cursor = CursorImageStatus::Default;
    let r = generate_render_elements(
        &st,
        Point::new(5, 5), // pointer inside: cursor element present
        &mut cursor,
        None,
        &vec![w1, w2],
        &vec![TAG_A],
        1,
        None,
        &layers,
    );
    // Overlay elements first, then the fullscreen window at the origin;
    // no layer band elements at all.
    assert_eq!(
        r,
        vec![
            RenderElement::Pointer { loc: Point::new(5, 5), surface: None },
            RenderElement::Window { window: 2, loc: Point::new(0, 0) },
        ]
    );
}

#[test]
fn fullscreen_not_acknowledged_is_not_selected() {
    // The requested-but-unacknowledged fullscreen state must not override.
    let mut st = base_state();
    st.set_focused_tags(1, vec![TAG_A]);
    let w1 = managed(1, 101);
    st.space.map_element(w1, Point::new(0, 0), false);
    st.set_window_tags(1, vec![TAG_A]);
    st.set_fullscreen_or_maximized(1, FullscreenOrMaximized::Fullscreen);
    // acked_fullscreen stays false

    let mut cursor = CursorImageStatus::Default;
    let r = generate_render_elements(
        &st,
        Point::new(-1, -1),
        &mut cursor,
        None,
        &vec![w1],
        &vec![TAG_A],
        1,
        None,
        &vec![],
    );
    assert_eq!(r, vec![RenderElement::Window { window: 1, loc: Point::new(0, 0) }]);
}

#[test]
fn foreign_window_exempt_from_ack_check() {
    let mut st = base_state();
    st.set_focused_tags(1, vec![TAG_A]);
    let fw = Window { id: 7, surface: 707, kind: WindowKind::Foreign };
    st.add_foreign_window(fw);
    st.set_window_tags(7, vec![TAG_A]);
    st.set_fullscreen_or_maximized(7, FullscreenOrMaximized::Fullscreen);

    let mut cursor = CursorImageStatus::Default;
    let r = generate_render_elements(
        &st,
        Point::new(-1, -1),
        &mut cursor,
        None,
        &vec![fw],
        &vec![TAG_A],
        1,
        None,
        &vec![],
    );
    assert_eq!(r, vec![RenderElement::Window { window: 7, loc: Point::new(0, 0) }]);
}

#[test]
fn most_recently_focused_fullscreen_wins() {
    let mut st = base_state();
    st.set_focused_tags(1, vec![TAG_A]);
    let w1 = managed(1, 101);
    let w2 = managed(2, 102);
    st.space.map_element(w1, Point::new(0, 0), false);
    st.space.map_element(w2, Point::new(0, 0), false);
    for id in [1, 2] {
        st.set_window_tags(id, vec![TAG_A]);
        st.set_fullscreen_or_maximized(id, FullscreenOrMaximized::Fullscreen);
        st.set_acked_fullscreen(id, true);
    }
    let mut cursor = CursorImageStatus::Default;
    // w2 is most recently focused (last): it is the override.
    let r = generate_render_elements(
        &st,
        Point::new(-1, -1),
        &mut cursor,
        None,
        &vec![w1, w2],
        &vec![TAG_A],
        1,
        None,
        &vec![],
    );
    assert_eq!(r, vec![RenderElement::Window { window: 2, loc: Point::new(0, 0) }]);
}

#[test]
fn pointer_outside_yields_no_cursor() {
    // No cursor element, whatever the cursor status.
    let st = base_state();
    for status in [
        CursorImageStatus::Default,
        CursorImageStatus::Surface { surface: 55, alive: true, hotspot: Point::new(1, 1) },
    ] {
        let mut cursor = status;
        let r = generate_render_elements(
            &st,
            Point::new(2000, 500), // outside the 1920x1080 viewport
            &mut cursor,
            Some(77), // even with a drag-and-drop icon in flight
            &vec![],
            &vec![],
            1,
            None,
            &vec![],
        );
        assert_eq!(r, vec![]);
        assert_eq!(cursor, status); // no reset outside the output
    }
}

#[test]
fn cursor_hotspot_and_dnd_icon() {
    let st = base_state();
    let mut cursor =
        CursorImageStatus::Surface { surface: 55, alive: true, hotspot: Point::new(3, 4) };
    let r = generate_render_elements(
        &st,
        Point::new(10, 10),
        &mut cursor,
        Some(77),
        &vec![],
        &vec![],
        1,
        None,
        &vec![],
    );
    assert_eq!(
        r,
        vec![
            RenderElement::Pointer { loc: Point::new(7, 6), surface: Some(55) },
            RenderElement::DndIcon { surface: 77, loc: Point::new(7, 6) },
        ]
    );
}

#[test]
fn dead_cursor_surface_resets_to_default() {
    let st = base_state();
    let mut cursor =
        CursorImageStatus::Surface { surface: 55, alive: false, hotspot: Point::new(3, 4) };
    let r = generate_render_elements(
        &st,
        Point::new(10, 10),
        &mut cursor,
        None,
        &vec![],
        &vec![],
        1,
        None,
        &vec![],
    );
    assert_eq!(cursor, CursorImageStatus::Default);
    // The hotspot was read before the reset; the element shows the themed cursor.
    assert_eq!(r, vec![RenderElement::Pointer { loc: Point::new(7, 6), surface: None }]);
}

#[test]
fn input_method_overlay_at_anchor_end() {
    let st = base_state();
    let mut cursor = CursorImageStatus::Default;
    let anchor = Rect { loc: Point::new(100, 200), size: Size::new(30, 20) };
    let r = generate_render_elements(
        &st,
        Point::new(-1, -1),
        &mut cursor,
        None,
        &vec![],
        &vec![],
        1,
        Some(anchor),
        &vec![],
    );
    assert_eq!(r, vec![RenderElement::InputMethod { loc: Point::new(130, 220) }]);
}

#[test]
fn layer_bands_order_and_skipped_geometry() {
    let mut st = base_state();
    st.set_focused_tags(1, vec![TAG_A]);
    let w1 = managed(1, 101);
    st.space.map_element(w1, Point::new(40, 40), false);
    st.set_window_tags(1, vec![TAG_A]);

    let layers = vec![
        LayerSurface { surface: 900, layer: Layer::Background, loc: Some(Point::new(0, 0)) },
        LayerSurface { surface: 901, layer: Layer::Top, loc: Some(Point::new(1, 1)) },
        LayerSurface { surface: 902, layer: Layer::Overlay, loc: Some(Point::new(2, 2)) },
        LayerSurface { surface: 903, layer: Layer::Bottom, loc: Some(Point::new(3, 3)) },
        LayerSurface { surface: 904, layer: Layer::Overlay, loc: None }, // no geometry: skipped
    ];
    let mut cursor = CursorImageStatus::Default;
    let r = generate_render_elements(
        &st,
        Point::new(-1, -1),
        &mut cursor,
        None,
        &vec![],
        &vec![TAG_A],
        1,
        None,
        &layers,
    );
    assert_eq!(
        r,
        vec![
            RenderElement::LayerSurface { surface: 902, layer: Layer::Overlay, loc: Point::new(2, 2) },
            RenderElement::LayerSurface { surface: 901, layer: Layer::Top, loc: Point::new(1, 1) },
            RenderElement::Window { window: 1, loc: Point::new(40, 40) },
            RenderElement::LayerSurface { surface: 903, layer: Layer::Bottom, loc: Point::new(3, 3) },
            RenderElement::LayerSurface { surface: 900, layer: Layer::Background, loc: Point::new(0, 0) },
        ]
    );
}

#[test]
fn cursor_arithmetic_at_coordinate_bounds() {
    // Coordinates at the edge of the supported range stay exact.
    let mut st = State::new();
    st.space
        .map_output(1, Rect::new(0x1000_0000, 0x1000_0000, 0x1000_0000, 0x1000_0000));
    let mut cursor = CursorImageStatus::Surface {
        surface: 5,
        alive: true,
        hotspot: Point::new(0x0FFF_FFFF, 0x0FFF_FFFF),
    };
    let r = generate_render_elements(
        &st,
        Point::new(0x1FFF_FFFF, 0x1FFF_FFFF),
        &mut cursor,
        None,
        &vec![],
        &vec![],
        1,
        None,
        &vec![],
    );
    assert_eq!(r, vec![RenderElement::Pointer { loc: Point::new(0, 0), surface: Some(5) }]);
}

#[test]
fn layer_render_elements_partitions_bands() {
    let layers = vec![
        LayerSurface { surface: 1, layer: Layer::Bottom, loc: Some(Point::new(0, 1)) },
        LayerSurface { surface: 2, layer: Layer::Bottom, loc: Some(Point::new(0, 2)) },
        LayerSurface { surface: 3, layer: Layer::Background, loc: Some(Point::new(0, 3)) },
    ];
    let bands = layer_render_elements(&layers);
    assert_eq!(
        bands.bottom,
        vec![
            RenderElement::LayerSurface { surface: 1, layer: Layer::Bottom, loc: Point::new(0, 1) },
            RenderElement::LayerSurface { surface: 2, layer: Layer::Bottom, loc: Point::new(0, 2) },
        ]
    );
    assert_eq!(
        bands.background,
        vec![RenderElement::LayerSurface {
            surface: 3,
            layer: Layer::Background,
            loc: Point::new(0, 3)
        }]
    );
    assert_eq!(bands.top, vec![]);
    assert_eq!(bands.overlay, vec![]);
}
