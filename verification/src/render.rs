//! The scene composition engine: once per output refresh it assembles the
//! ordered list of elements the draw backend must paint. Index 0 of the
//! returned list is the topmost element.

use vstd::prelude::*;

use crate::geometry::{point_bounded, rect_bounded, Point, Rect};
use crate::output::OutputId;
use crate::space::{spec_output_geometry, MappedWindow};
use crate::state::State;
use crate::tag::{spec_any_tag_active, TagId};
use crate::window::{SurfaceId, Window, WindowId};

verus! {

/// The four fixed paint bands of layer-shell surfaces.
#[derive(Clone, Copy, PartialEq, Eq, Structural, Debug)]
pub enum Layer {
    Background,
    Bottom,
    Top,
    Overlay,
}

/// A layer-shell surface of an output, with its declared band and its
/// reported placement offset (none while it has no geometry yet).
#[derive(Clone, Copy, PartialEq, Eq, Debug)]
pub struct LayerSurface {
    pub surface: SurfaceId,
    pub layer: Layer,
    pub loc: Option<Point>,
}

/// What the pointer shows: the themed default cursor, or a client-supplied
/// cursor surface with its hotspot and liveness as the protocol layer
/// reports them.
#[derive(Clone, Copy, PartialEq, Eq, Debug)]
pub enum CursorImageStatus {
    Default,
    Surface { surface: SurfaceId, alive: bool, hotspot: Point },
}

/// One drawable element of the composed frame, placed in the output's
/// logical coordinates. A closed union: every kind the compositor can paint.
#[derive(Clone, Copy, PartialEq, Eq, Debug)]
pub enum RenderElement {
    /// Input-method pre-edit overlay.
    InputMethod { loc: Point },
    /// The pointer; `surface` names a client-supplied cursor, none means the
    /// themed default.
    Pointer { loc: Point, surface: Option<SurfaceId> },
    /// A drag-and-drop icon tracked at the pointer.
    DndIcon { surface: SurfaceId, loc: Point },
    /// A layer-shell surface at its placement offset.
    LayerSurface { surface: SurfaceId, layer: Layer, loc: Point },
    /// A window's content at its placement.
    Window { window: WindowId, loc: Point },
}

impl Window {
    /// The positioned drawable for this window; managed and foreign windows
    /// render through the same element kind.
    pub fn render_element(&self, loc: Point) -> (r: RenderElement)
        ensures
            r == (RenderElement::Window { window: self.id, loc }),
    {
        RenderElement::Window { window: self.id, loc }
    }
}

/// The cursor status after composing: a client cursor whose surface has been
/// destroyed is reset to the themed default, but only when the pointer is
/// over the output being composed.
pub open spec fn spec_cursor_reset(c: CursorImageStatus, inside: bool) -> CursorImageStatus {
    match c {
        CursorImageStatus::Surface { surface, alive, hotspot } => if inside && !alive {
            CursorImageStatus::Default
        } else {
            c
        },
        CursorImageStatus::Default => c,
    }
}

/// The hotspot read from a client-supplied cursor's metadata, or the origin
/// for the themed default.
pub open spec fn spec_hotspot(c: CursorImageStatus) -> Point {
    match c {
        CursorImageStatus::Surface { surface, alive, hotspot } => hotspot,
        CursorImageStatus::Default => Point { x: 0, y: 0 },
    }
}

/// The client cursor surface shown by the pointer element, if any.
pub open spec fn spec_pointer_source(c: CursorImageStatus) -> Option<SurfaceId> {
    match c {
        CursorImageStatus::Surface { surface, alive, hotspot } => Some(surface),
        CursorImageStatus::Default => None,
    }
}

/// Where the cursor is drawn: the pointer position, output-local, shifted by
/// the hotspot.
pub open spec fn spec_cursor_loc(pointer: Point, geo: Rect, hotspot: Point) -> Point {
    Point {
        x: (pointer.x - geo.loc.x - hotspot.x) as i32,
        y: (pointer.y - geo.loc.y - hotspot.y) as i32,
    }
}

/// The custom overlay elements, front to back: the input-method overlay at
/// the end of its anchor rectangle; if the pointer lies within the output's
/// geometry, the cursor (hotspot from the pre-reset status) and, when
/// present, the drag-and-drop icon at the cursor position. Outside the
/// output's geometry neither cursor nor icon is produced.
pub open spec fn spec_overlay_elements(
    im: Option<Rect>,
    pointer: Point,
    cursor: CursorImageStatus,
    dnd: Option<SurfaceId>,
    geo: Rect,
) -> Seq<RenderElement> {
    let im_part = match im {
        Some(r) => seq![
            RenderElement::InputMethod {
                loc: Point { x: (r.loc.x + r.size.w) as i32, y: (r.loc.y + r.size.h) as i32 },
            },
        ],
        None => Seq::empty(),
    };
    let inside = geo.spec_contains(pointer);
    let cpost = spec_cursor_reset(cursor, inside);
    let cloc = spec_cursor_loc(pointer, geo, spec_hotspot(cursor));
    let ptr_part = if inside {
        seq![RenderElement::Pointer { loc: cloc, surface: spec_pointer_source(cpost) }]
    } else {
        Seq::empty()
    };
    let dnd_part = if inside {
        match dnd {
            Some(s) => seq![RenderElement::DndIcon { surface: s, loc: cloc }],
            None => Seq::empty(),
        }
    } else {
        Seq::empty()
    };
    im_part + ptr_part + dnd_part
}

/// The three criteria of the fullscreen override: the window's record says
/// fullscreen; one of its tags is active on some output; and a managed
/// window's client must have acknowledged the fullscreen state (a foreign
/// window is exempt).
pub open spec fn spec_fullscreen_ready(st: State, win: Window, active: Seq<TagId>) -> bool {
    &&& st.spec_window_state(win.id).fullscreen_or_maximized is Fullscreen
    &&& spec_any_tag_active(st.spec_window_state(win.id).tags, active)
    &&& (win.kind is Managed ==> st.spec_toplevel(win.id).acked_fullscreen)
}

/// The fullscreen override: the most recently focused window of the stack
/// (most recent last) meeting all three criteria, if any.
pub open spec fn spec_fullscreen_candidate(st: State, stack: Seq<Window>, active: Seq<TagId>) -> Option<
    Window,
>
    decreases stack.len(),
{
    if stack.len() == 0 {
        None
    } else if spec_fullscreen_ready(st, stack.last(), active) {
        Some(stack.last())
    } else {
        spec_fullscreen_candidate(st, stack.drop_last(), active)
    }
}

/// The elements of one paint band: the layer surfaces declared for `band`
/// that have a placement offset, in their reported order.
pub open spec fn spec_layer_band(layers: Seq<LayerSurface>, band: Layer) -> Seq<RenderElement>
    decreases layers.len(),
{
    if layers.len() == 0 {
        Seq::empty()
    } else {
        let rest = spec_layer_band(layers.drop_last(), band);
        let l = layers.last();
        if l.layer == band && l.loc is Some {
            rest.push(
                RenderElement::LayerSurface { surface: l.surface, layer: l.layer, loc: l.loc->0 },
            )
        } else {
            rest
        }
    }
}

/// The tag-filtered window elements, topmost first: a window is included if
/// it is floating or shares a viewed tag with the output.
pub open spec fn spec_window_elements(st: State, s: Seq<MappedWindow>, o: OutputId) -> Seq<
    RenderElement,
>
    decreases s.len(),
{
    if s.len() == 0 {
        Seq::empty()
    } else {
        let top = if st.spec_window_included(s.last().window.id, o) {
            seq![RenderElement::Window { window: s.last().window.id, loc: s.last().loc }]
        } else {
            Seq::empty()
        };
        top + spec_window_elements(st, s.drop_last(), o)
    }
}

/// The composed frame. Overlay elements come first (topmost). If a
/// fullscreen override is selected, the only other element is that window at
/// the origin: every layer band and every other window is suppressed. Else
/// the frame is the overlay and top layer bands, the tag-filtered windows,
/// then the bottom and background bands.
pub open spec fn spec_compose(
    st: State,
    pointer: Point,
    cursor: CursorImageStatus,
    dnd: Option<SurfaceId>,
    stack: Seq<Window>,
    active: Seq<TagId>,
    o: OutputId,
    im: Option<Rect>,
    layers: Seq<LayerSurface>,
) -> Seq<RenderElement> {
    let geo = spec_output_geometry(st.space.outputs(), o)->0;
    let overlays = spec_overlay_elements(im, pointer, cursor, dnd, geo);
    match spec_fullscreen_candidate(st, stack, active) {
        Some(win) => overlays + seq![
            RenderElement::Window { window: win.id, loc: Point { x: 0, y: 0 } },
        ],
        None => overlays + spec_layer_band(layers, Layer::Overlay) + spec_layer_band(
            layers,
            Layer::Top,
        ) + spec_window_elements(st, st.space.mapped(), o) + spec_layer_band(layers, Layer::Bottom)
            + spec_layer_band(layers, Layer::Background),
    }
}

/// The layer-shell surfaces of an output partitioned into the four paint
/// bands, each surface at its reported placement offset.
pub struct LayerRenderElements {
    pub background: Vec<RenderElement>,
    pub bottom: Vec<RenderElement>,
    pub top: Vec<RenderElement>,
    pub overlay: Vec<RenderElement>,
}

/// Partition the output's layer surfaces into the four ordered bands,
/// skipping surfaces that have no placement offset yet.
pub fn layer_render_elements(layers: &Vec<LayerSurface>) -> (r: LayerRenderElements)
    ensures
        r.background@ == spec_layer_band(layers@, Layer::Background),
        r.bottom@ == spec_layer_band(layers@, Layer::Bottom),
        r.top@ == spec_layer_band(layers@, Layer::Top),
        r.overlay@ == spec_layer_band(layers@, Layer::Overlay),
{
    let mut background: Vec<RenderElement> = Vec::new();
    let mut bottom: Vec<RenderElement> = Vec::new();
    let mut top: Vec<RenderElement> = Vec::new();
    let mut overlay: Vec<RenderElement> = Vec::new();
    let mut i: usize = 0;
    while i < layers.len()
        invariant
            i <= layers@.len(),
            background@ == spec_layer_band(layers@.take(i as int), Layer::Background),
            bottom@ == spec_layer_band(layers@.take(i as int), Layer::Bottom),
            top@ == spec_layer_band(layers@.take(i as int), Layer::Top),
            overlay@ == spec_layer_band(layers@.take(i as int), Layer::Overlay),
        decreases layers@.len() - i,
    {
        let l = layers[i];
        proof {
            assert(layers@.take(i as int + 1).drop_last() =~= layers@.take(i as int));
            assert(layers@.take(i as int + 1).last() == layers@[i as int]);
        }
        match l.loc {
            Some(loc) => {
                let elem = RenderElement::LayerSurface { surface: l.surface, layer: l.layer, loc };
                match l.layer {
                    Layer::Background => background.push(elem),
                    Layer::Bottom => bottom.push(elem),
                    Layer::Top => top.push(elem),
                    Layer::Overlay => overlay.push(elem),
                }
            },
            None => {},
        }
        i = i + 1;
    }
    proof {
        assert(layers@.take(layers@.len() as int) =~= layers@);
    }
    LayerRenderElements { background, bottom, top, overlay }
}

/// Whether `win` meets all three fullscreen-override criteria.
pub fn fullscreen_ready(state: &State, win: Window, active: &Vec<TagId>) -> (r: bool)
    ensures
        r == spec_fullscreen_ready(*state, win, active@),
{
    let fullscreen_flag = match state.get_window_state(win.id) {
        Some(ws) => {
            ws.fullscreen_or_maximized.is_fullscreen() && crate::tag::any_tag_active(
                &ws.tags,
                active,
            )
        },
        None => false,
    };
    if !fullscreen_flag {
        return false;
    }
    match win.kind {
        crate::window::WindowKind::Managed => state.toplevel(win.id).acked_fullscreen,
        crate::window::WindowKind::Foreign => true,
    }
}

/// Scan the focus stack from most recently focused (last) to least and
/// return the first window meeting the fullscreen-override criteria.
pub fn find_fullscreen_override(state: &State, focus_stack: &Vec<Window>, active: &Vec<TagId>) -> (r:
    Option<Window>)
    ensures
        r == spec_fullscreen_candidate(*state, focus_stack@, active@),
{
    let mut i: usize = focus_stack.len();
    proof {
        assert(focus_stack@.take(focus_stack@.len() as int) =~= focus_stack@);
    }
    while i > 0
        invariant
            i <= focus_stack@.len(),
            spec_fullscreen_candidate(*state, focus_stack@, active@) == spec_fullscreen_candidate(
                *state,
                focus_stack@.take(i as int),
                active@,
            ),
        decreases i,
    {
        i = i - 1;
        let win = focus_stack[i];
        proof {
            assert(focus_stack@.take(i as int + 1).drop_last() =~= focus_stack@.take(i as int));
            assert(focus_stack@.take(i as int + 1).last() == focus_stack@[i as int]);
        }
        if fullscreen_ready(state, win, active) {
            return Some(win);
        }
    }
    None
}

/// The tag-filtered window elements of the registry, topmost first, each at
/// its mapped location.
pub fn tag_filtered_window_elements(state: &State, o: OutputId) -> (r: Vec<RenderElement>)
    ensures
        r@ == spec_window_elements(*state, state.space.mapped(), o),
{
    let mapped = state.space.elements();
    let mut r: Vec<RenderElement> = Vec::new();
    let mut i: usize = mapped.len();
    proof {
        assert(mapped@.take(mapped@.len() as int) =~= mapped@);
        assert(Seq::<RenderElement>::empty() + spec_window_elements(*state, mapped@, o)
            =~= spec_window_elements(*state, mapped@, o));
    }
    while i > 0
        invariant
            mapped@ == state.space.mapped(),
            i <= mapped@.len(),
            spec_window_elements(*state, mapped@, o) == r@ + spec_window_elements(
                *state,
                mapped@.take(i as int),
                o,
            ),
        decreases i,
    {
        i = i - 1;
        let m = mapped[i];
        proof {
            assert(mapped@.take(i as int + 1).drop_last() =~= mapped@.take(i as int));
            assert(mapped@.take(i as int + 1).last() == mapped@[i as int]);
        }
        let ghost r_before = r@;
        if state.window_included(m.window.id, o) {
            r.push(RenderElement::Window { window: m.window.id, loc: m.loc });
            proof {
                assert(r@ =~= r_before + seq![
                    RenderElement::Window { window: m.window.id, loc: m.loc },
                ]);
                assert(r_before + spec_window_elements(*state, mapped@.take(i as int + 1), o) =~= r@
                    + spec_window_elements(*state, mapped@.take(i as int), o));
            }
        } else {
            proof {
                assert(r_before + spec_window_elements(*state, mapped@.take(i as int + 1), o) =~= r@
                    + spec_window_elements(*state, mapped@.take(i as int), o));
            }
        }
    }
    proof {
        assert(mapped@.take(mapped@.len() as int) =~= mapped@);
        assert(spec_window_elements(*state, mapped@.take(0), o) =~= Seq::<RenderElement>::empty());
        assert(r@ + Seq::<RenderElement>::empty() =~= r@);
    }
    r
}

/// The overlay elements are only input-method, pointer and icon elements:
/// never a layer surface, never a window.
proof fn lemma_overlay_kinds(
    im: Option<Rect>,
    pointer: Point,
    cursor: CursorImageStatus,
    dnd: Option<SurfaceId>,
    geo: Rect,
)
    ensures
        forall|i: int|
            0 <= i < spec_overlay_elements(im, pointer, cursor, dnd, geo).len() ==> {
                let e = #[trigger] spec_overlay_elements(im, pointer, cursor, dnd, geo)[i];
                e is InputMethod || e is Pointer || e is DndIcon
            },
{
}

/// Law of path exclusion: when a fullscreen override is selected, the
/// composed frame holds no layer-band element at all, and its only window
/// element is the override itself at the origin; a frame with layer-band
/// elements is therefore never a fullscreen-override frame.
pub proof fn lemma_compose_paths_exclusive(
    st: State,
    pointer: Point,
    cursor: CursorImageStatus,
    dnd: Option<SurfaceId>,
    stack: Seq<Window>,
    active: Seq<TagId>,
    o: OutputId,
    im: Option<Rect>,
    layers: Seq<LayerSurface>,
)
    requires
        spec_fullscreen_candidate(st, stack, active) is Some,
    ensures
        ({
            let r = spec_compose(st, pointer, cursor, dnd, stack, active, o, im, layers);
            let win = spec_fullscreen_candidate(st, stack, active)->0;
            &&& forall|i: int| 0 <= i < r.len() ==> !(#[trigger] r[i] is LayerSurface)
            &&& forall|i: int|
                0 <= i < r.len() && #[trigger] r[i] is Window ==> r[i] == (RenderElement::Window {
                    window: win.id,
                    loc: Point { x: 0, y: 0 },
                })
        }),
{
    let geo = spec_output_geometry(st.space.outputs(), o)->0;
    lemma_overlay_kinds(im, pointer, cursor, dnd, geo);
    let overlays = spec_overlay_elements(im, pointer, cursor, dnd, geo);
    let win = spec_fullscreen_candidate(st, stack, active)->0;
    let r = spec_compose(st, pointer, cursor, dnd, stack, active, o, im, layers);
    assert(r == overlays + seq![
        RenderElement::Window { window: win.id, loc: Point { x: 0, y: 0 } },
    ]);
    assert forall|i: int| 0 <= i < r.len() implies !(#[trigger] r[i] is LayerSurface) by {
        if i < overlays.len() {
            assert(r[i] == overlays[i]);
        } else {
            assert(r[i] == (RenderElement::Window { window: win.id, loc: Point { x: 0, y: 0 } }));
        }
    }
    assert forall|i: int|
        0 <= i < r.len() && #[trigger] r[i] is Window implies r[i] == (RenderElement::Window {
        window: win.id,
        loc: Point { x: 0, y: 0 },
    }) by {
        if i < overlays.len() {
            assert(r[i] == overlays[i]);
        } else {
            assert(r[i] == (RenderElement::Window { window: win.id, loc: Point { x: 0, y: 0 } }));
        }
    }
}

/// Whether index `i` names the most recently focused window of `stack`
/// meeting the fullscreen-override criteria.
pub open spec fn spec_most_recent_ready(
    st: State,
    stack: Seq<Window>,
    active: Seq<TagId>,
    i: int,
) -> bool {
    &&& 0 <= i < stack.len()
    &&& spec_fullscreen_ready(st, stack[i], active)
    &&& forall|j: int|
        i < j < stack.len() ==> !spec_fullscreen_ready(st, #[trigger] stack[j], active)
}

/// Law of override selection: at most one window is ever selected, and the
/// selected window is exactly the most recently focused window of the stack
/// meeting all three criteria; none is selected exactly when no window of
/// the stack meets them.
pub proof fn lemma_fullscreen_candidate_most_recent(st: State, stack: Seq<Window>, active: Seq<TagId>)
    ensures
        match spec_fullscreen_candidate(st, stack, active) {
            Some(w) => exists|i: int|
                #[trigger] spec_most_recent_ready(st, stack, active, i) && stack[i] == w,
            None => forall|i: int|
                0 <= i < stack.len() ==> !spec_fullscreen_ready(st, #[trigger] stack[i], active),
        },
    decreases stack.len(),
{
    if stack.len() == 0 {
    } else if spec_fullscreen_ready(st, stack.last(), active) {
        let i = stack.len() - 1;
        assert(spec_most_recent_ready(st, stack, active, i));
    } else {
        lemma_fullscreen_candidate_most_recent(st, stack.drop_last(), active);
        let prefix = stack.drop_last();
        match spec_fullscreen_candidate(st, prefix, active) {
            Some(w) => {
                let i = choose|i: int|
                    #[trigger] spec_most_recent_ready(st, prefix, active, i) && prefix[i] == w;
                assert(stack[i] == w);
                assert forall|j: int|
                    i < j < stack.len() implies !spec_fullscreen_ready(
                    st,
                    #[trigger] stack[j],
                    active,
                ) by {
                    if j < stack.len() - 1 {
                        assert(prefix[j] == stack[j]);
                        assert(!spec_fullscreen_ready(st, prefix[j], active));
                    }
                }
                assert(spec_most_recent_ready(st, stack, active, i));
            },
            None => {
                assert forall|i: int|
                    0 <= i < stack.len() implies !spec_fullscreen_ready(
                    st,
                    #[trigger] stack[i],
                    active,
                ) by {
                    if i < stack.len() - 1 {
                        assert(prefix[i] == stack[i]);
                        assert(!spec_fullscreen_ready(st, prefix[i], active));
                    }
                }
            },
        }
    }
}

/// Compose one output's frame: resolve the output's viewport (composing for
/// an unmapped output is a fatal precondition violation), build the custom
/// overlay elements, then either the single fullscreen-override window or
/// the layer bands around the tag-filtered windows. Absent optional inputs
/// simply produce fewer elements. Side effect: a client cursor whose surface
/// was destroyed is reset to the themed default while the pointer is over
/// this output.
pub fn generate_render_elements(
    state: &State,
    pointer_location: Point,
    cursor_status: &mut CursorImageStatus,
    dnd_icon: Option<SurfaceId>,
    focus_stack: &Vec<Window>,
    active_tags: &Vec<TagId>,
    output: OutputId,
    input_method: Option<Rect>,
    layers: &Vec<LayerSurface>,
) -> (r: Vec<RenderElement>)
    requires
        state.wf(),
        spec_output_geometry(state.space.outputs(), output) is Some,
        rect_bounded(spec_output_geometry(state.space.outputs(), output)->0),
        point_bounded(pointer_location),
        point_bounded(spec_hotspot(*old(cursor_status))),
        match input_method {
            Some(r) => rect_bounded(r),
            None => true,
        },
    ensures
        *final(cursor_status) == spec_cursor_reset(
            *old(cursor_status),
            spec_output_geometry(state.space.outputs(), output)->0.spec_contains(pointer_location),
        ),
        r@ == spec_compose(
            *state,
            pointer_location,
            *old(cursor_status),
            dnd_icon,
            focus_stack@,
            active_tags@,
            output,
            input_method,
            layers@,
        ),
{
    let geo = match state.space.output_geometry(output) {
        Some(g) => g,
        None => {
            proof {
                assert(false);
            }
            Rect { loc: Point { x: 0, y: 0 }, size: crate::geometry::Size { w: 0, h: 0 } }
        },
    };
    let mut custom: Vec<RenderElement> = Vec::new();
    match input_method {
        Some(rect) => {
            let pos = Point { x: rect.loc.x + rect.size.w, y: rect.loc.y + rect.size.h };
            custom.push(RenderElement::InputMethod { loc: pos });
        },
        None => {},
    }
    let hotspot = match *cursor_status {
        CursorImageStatus::Surface { surface: _, alive: _, hotspot } => hotspot,
        CursorImageStatus::Default => Point { x: 0, y: 0 },
    };
    let inside = geo.contains(pointer_location);
    if inside {
        let cursor_loc = Point {
            x: pointer_location.x - geo.loc.x - hotspot.x,
            y: pointer_location.y - geo.loc.y - hotspot.y,
        };
        // reset the cursor if its surface is no longer alive
        match *cursor_status {
            CursorImageStatus::Surface { surface: _, alive, hotspot: _ } => {
                if !alive {
                    *cursor_status = CursorImageStatus::Default;
                }
            },
            CursorImageStatus::Default => {},
        }
        let source = match *cursor_status {
            CursorImageStatus::Surface { surface, alive: _, hotspot: _ } => Some(surface),
            CursorImageStatus::Default => None,
        };
        custom.push(RenderElement::Pointer { loc: cursor_loc, surface: source });
        match dnd_icon {
            Some(s) => {
                custom.push(RenderElement::DndIcon { surface: s, loc: cursor_loc });
            },
            None => {},
        }
    }
    proof {
        assert(custom@ =~= spec_overlay_elements(
            input_method,
            pointer_location,
            *old(cursor_status),
            dnd_icon,
            geo,
        ));
    }
    match find_fullscreen_override(state, focus_stack, active_tags) {
        Some(win) => {
            // render only the fullscreen window, at the origin; every layer
            // band and every other window is suppressed this frame
            let mut r = custom;
            r.push(win.render_element(Point { x: 0, y: 0 }));
            proof {
                assert(r@ =~= spec_compose(
                    *state,
                    pointer_location,
                    *old(cursor_status),
                    dnd_icon,
                    focus_stack@,
                    active_tags@,
                    output,
                    input_method,
                    layers@,
                ));
            }
            r
        },
        None => {
            let mut bands = layer_render_elements(layers);
            let mut windows = tag_filtered_window_elements(state, output);
            let mut r = custom;
            r.append(&mut bands.overlay);
            r.append(&mut bands.top);
            r.append(&mut windows);
            r.append(&mut bands.bottom);
            r.append(&mut bands.background);
            proof {
                assert(r@ =~= spec_compose(
                    *state,
                    pointer_location,
                    *old(cursor_status),
                    dnd_icon,
                    focus_stack@,
                    active_tags@,
                    output,
                    input_method,
                    layers@,
                ));
            }
            r
        },
    }
}

} // verus!
