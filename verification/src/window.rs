//! Windows and their side records, the floating/tiled placement states, the
//! modeled toplevel configure state, and the commit-ordering barrier used
//! during interactive resize.

use vstd::prelude::*;

use crate::geometry::{Point, Size};
use crate::space::{
    spec_element_location, spec_has_window, spec_window_consistent, spec_window_index,
    MappedWindow,
};
use crate::state::{
    lemma_visible_serials_congruent, spec_visible_serials_of, Action, Condition, DeferredAction,
    State,
};
use crate::tag::TagId;

verus! {

/// Stable identifier of a window.
pub type WindowId = u64;

/// Stable identifier of a surface (a client-owned drawable buffer source).
pub type SurfaceId = u64;

/// Origin of a window: owned by the primary protocol and placed by the
/// managed registry, or bridged from the secondary protocol and not yet
/// integrated into the registry.
#[derive(Clone, Copy, PartialEq, Eq, Structural, Debug)]
pub enum WindowKind {
    Managed,
    Foreign,
}

/// Identity-bearing handle to a drawable window. Geometry is not owned here;
/// it lives in the placement registry ([`crate::space::Space`]).
#[derive(Clone, Copy, PartialEq, Eq, Structural, Debug)]
pub struct Window {
    pub id: WindowId,
    pub surface: SurfaceId,
    pub kind: WindowKind,
}

/// Placement captured when a window leaves the floating state, restored when
/// it becomes floating again.
#[derive(Clone, Copy, PartialEq, Eq, Structural, Debug)]
pub struct SavedGeometry {
    pub loc: Point,
    pub size: Size,
}

/// Placement state of a window. A tiled window remembers the floating
/// placement it had before it was tiled, if it ever was floating.
#[derive(Clone, Copy, PartialEq, Eq, Debug)]
pub enum Float {
    Tiled(Option<SavedGeometry>),
    Floating,
}

impl Float {
    pub open spec fn spec_is_floating(self) -> bool {
        self is Floating
    }

    pub fn is_floating(&self) -> (r: bool)
        ensures
            r == self.spec_is_floating(),
    {
        matches!(self, Float::Floating)
    }
}

/// Whether a window occupies the whole output, is maximized, or neither.
#[derive(Clone, Copy, PartialEq, Eq, Structural, Debug)]
pub enum FullscreenOrMaximized {
    Fullscreen,
    Maximized,
    Neither,
}

impl FullscreenOrMaximized {
    pub open spec fn spec_is_fullscreen(self) -> bool {
        self is Fullscreen
    }

    pub fn is_fullscreen(&self) -> (r: bool)
        ensures
            r == self.spec_is_fullscreen(),
    {
        matches!(self, FullscreenOrMaximized::Fullscreen)
    }
}

/// Side record attached to a window: its placement state, its tags, and its
/// fullscreen/maximized flag.
#[derive(Clone, Debug, PartialEq)]
pub struct WindowState {
    pub floating: Float,
    pub tags: Vec<TagId>,
    pub fullscreen_or_maximized: FullscreenOrMaximized,
}

impl Default for WindowState {
    /// A fresh window record is tiled with no remembered floating placement,
    /// carries no tags, and is neither fullscreen nor maximized.
    fn default() -> (r: WindowState)
        ensures
            r.floating == Float::Tiled(None::<SavedGeometry>),
            r.tags@ == Seq::<TagId>::empty(),
            r.fullscreen_or_maximized == FullscreenOrMaximized::Neither,
    {
        WindowState {
            floating: Float::Tiled(None),
            tags: Vec::new(),
            fullscreen_or_maximized: FullscreenOrMaximized::Neither,
        }
    }
}

/// Ghost view of a window's side record, with the tag list as a sequence.
pub struct WindowStateView {
    pub floating: Float,
    pub tags: Seq<TagId>,
    pub fullscreen_or_maximized: FullscreenOrMaximized,
}

impl View for WindowState {
    type V = WindowStateView;

    open spec fn view(&self) -> WindowStateView {
        WindowStateView {
            floating: self.floating,
            tags: self.tags@,
            fullscreen_or_maximized: self.fullscreen_or_maximized,
        }
    }
}

/// The record every window starts from: tiled with no remembered floating
/// placement, no tags, neither fullscreen nor maximized.
pub open spec fn spec_default_window_state() -> WindowStateView {
    WindowStateView {
        floating: Float::Tiled(None),
        tags: Seq::empty(),
        fullscreen_or_maximized: FullscreenOrMaximized::Neither,
    }
}

/// The not-yet-acknowledged configure state requested from a client: the four
/// tiled-edge flags and an optional size request.
#[derive(Clone, Copy, PartialEq, Eq, Debug)]
pub struct PendingConfigure {
    pub size: Option<Size>,
    pub tiled_top: bool,
    pub tiled_bottom: bool,
    pub tiled_left: bool,
    pub tiled_right: bool,
}

/// Whether all four tiled-edge flags are set.
pub open spec fn tiled_edges_set(p: PendingConfigure) -> bool {
    p.tiled_top && p.tiled_bottom && p.tiled_left && p.tiled_right
}

/// Whether all four tiled-edge flags are clear.
pub open spec fn tiled_edges_clear(p: PendingConfigure) -> bool {
    !p.tiled_top && !p.tiled_bottom && !p.tiled_left && !p.tiled_right
}

/// The toplevel state every window starts from.
pub open spec fn spec_default_toplevel() -> ToplevelState {
    ToplevelState {
        pending: PendingConfigure {
            size: None,
            tiled_top: false,
            tiled_bottom: false,
            tiled_left: false,
            tiled_right: false,
        },
        acked_fullscreen: false,
        current_size: Size { w: 0, h: 0 },
        commit_count: 0,
    }
}

/// Modeled protocol state of a window's toplevel role: the pending configure,
/// the acknowledged fullscreen flag, the size the client currently shows, and
/// how many buffer commits have been applied for it.
#[derive(Clone, Copy, PartialEq, Debug)]
pub struct ToplevelState {
    pub pending: PendingConfigure,
    pub acked_fullscreen: bool,
    pub current_size: Size,
    pub commit_count: u64,
}

impl Default for ToplevelState {
    /// A fresh toplevel has nothing pending, no acknowledged fullscreen state,
    /// zero size and no applied commits.
    fn default() -> (r: ToplevelState)
        ensures
            r.pending.size is None,
            tiled_edges_clear(r.pending),
            !r.acked_fullscreen,
            r.current_size == (Size { w: 0, h: 0 }),
            r.commit_count == 0,
    {
        ToplevelState {
            pending: PendingConfigure {
                size: None,
                tiled_top: false,
                tiled_bottom: false,
                tiled_left: false,
                tiled_right: false,
            },
            acked_fullscreen: false,
            current_size: Size { w: 0, h: 0 },
            commit_count: 0,
        }
    }
}

/// The commit-ordering barrier. While the counter is above zero, commits for
/// barred surfaces are queued rather than applied; when the counter returns
/// to zero the queued commits are released in submission order. Increments
/// and decrements are paired by the resize collaborator; the counter can
/// never be observed negative.
pub struct CommitBarrier {
    counter: u64,
    queued: Vec<SurfaceId>,
}

impl CommitBarrier {
    /// Pending unacknowledged resize requests.
    pub closed spec fn counter(self) -> u64 {
        self.counter
    }

    /// Commits held back, in submission order.
    pub closed spec fn queued(self) -> Seq<SurfaceId> {
        self.queued@
    }

    /// Nothing stays queued once the barrier is down.
    pub open spec fn wf(self) -> bool {
        self.counter() == 0 ==> self.queued().len() == 0
    }

    pub fn new() -> (r: CommitBarrier)
        ensures
            r.counter() == 0,
            r.queued() == Seq::<SurfaceId>::empty(),
            r.wf(),
    {
        CommitBarrier { counter: 0, queued: Vec::new() }
    }

    /// One more pending, unacknowledged resize request.
    pub fn acquire(&mut self)
        requires
            old(self).counter() < u64::MAX,
        ensures
            final(self).counter() == old(self).counter() + 1,
            final(self).queued() == old(self).queued(),
            final(self).wf(),
    {
        self.counter = self.counter + 1;
    }

    /// One resize request was acknowledged. Returns the commits to apply now,
    /// in submission order: all queued ones if the barrier reached zero,
    /// none otherwise.
    pub fn release(&mut self) -> (applied: Vec<SurfaceId>)
        requires
            old(self).counter() > 0,
        ensures
            final(self).counter() == old(self).counter() - 1,
            final(self).counter() == 0 ==> {
                &&& applied@ == old(self).queued()
                &&& final(self).queued() == Seq::<SurfaceId>::empty()
            },
            final(self).counter() > 0 ==> {
                &&& applied@ == Seq::<SurfaceId>::empty()
                &&& final(self).queued() == old(self).queued()
            },
            final(self).wf(),
    {
        self.counter = self.counter - 1;
        if self.counter == 0 {
            let mut drained: Vec<SurfaceId> = Vec::new();
            std::mem::swap(&mut drained, &mut self.queued);
            drained
        } else {
            Vec::new()
        }
    }

    /// A commit arrived for a barred surface. Returns true when the commit
    /// may be applied at once, false when it was queued behind the barrier.
    pub fn submit(&mut self, surface: SurfaceId) -> (apply_now: bool)
        ensures
            final(self).counter() == old(self).counter(),
            apply_now == (old(self).counter() == 0),
            apply_now ==> final(self).queued() == old(self).queued(),
            !apply_now ==> final(self).queued() == old(self).queued().push(surface),
            old(self).wf() ==> final(self).wf(),
    {
        if self.counter > 0 {
            self.queued.push(surface);
            false
        } else {
            true
        }
    }

    /// Exec view of the counter.
    pub fn count(&self) -> (r: u64)
        ensures
            r == self.counter(),
    {
        self.counter
    }
}

/// What one call of [`toggle_floating`] does: how the post state and the
/// returned actions relate to the pre state, for each placement state of the
/// toggled window. `out` below is the focused output.
pub open spec fn toggle_rel(pre: State, post: State, actions: Seq<Action>, window: Window) -> bool {
    let w = window.id;
    let out = pre.focus_state.focused_output->0;
    let fl = pre.spec_window_state(w).floating;
    let tl_pre = pre.spec_toplevel(w);
    let tl_post = post.spec_toplevel(w);
    &&& post.windows == pre.windows
    &&& post.space.outputs() == pre.space.outputs()
    &&& post.space.active() == pre.space.active()
    &&& post.output_states == pre.output_states
    &&& post.surface_states == pre.surface_states
    &&& post.blocker == pre.blocker
    &&& post.focus_state == pre.focus_state
    &&& forall|w2: WindowId| w2 != w ==> post.spec_window_state(w2) == pre.spec_window_state(w2)
    &&& forall|w2: WindowId| w2 != w ==> post.spec_toplevel(w2) == pre.spec_toplevel(w2)
    &&& post.spec_window_state(w).tags == pre.spec_window_state(w).tags
    &&& post.spec_window_state(w).fullscreen_or_maximized == pre.spec_window_state(
        w,
    ).fullscreen_or_maximized
    &&& tl_post.acked_fullscreen == tl_pre.acked_fullscreen
    &&& tl_post.current_size == tl_pre.current_size
    &&& tl_post.commit_count == tl_pre.commit_count
    // exactly one new idle entry: raise the window once the windows now
    // visible on the focused output have each committed a newer frame
    &&& post.idle_queue@.len() == pre.idle_queue@.len() + 1
    &&& forall|i: int| 0 <= i < pre.idle_queue@.len() ==> post.idle_queue@[i] == pre.idle_queue@[i]
    &&& post.idle_queue@.last().action == DeferredAction::Raise(window)
    &&& (post.idle_queue@.last().condition matches Condition::AllCommitted(pairs) && pairs@
        == spec_visible_serials_of(post, post.space.mapped(), out))
    &&& match fl {
        Float::Tiled(None) => {
            &&& post.spec_window_state(w).floating is Floating
            &&& tiled_edges_clear(tl_post.pending)
            &&& tl_post.pending.size == tl_pre.pending.size
            &&& post.space.mapped() == pre.space.mapped()
            &&& actions == seq![Action::ReLayout(out)]
        },
        Float::Tiled(Some(sg)) => {
            &&& post.spec_window_state(w).floating is Floating
            &&& tiled_edges_clear(tl_post.pending)
            &&& tl_post.pending.size == Some(sg.size)
            &&& post.space.mapped() == pre.space.mapped().update(
                spec_window_index(pre.space.mapped(), w),
                MappedWindow { window, loc: sg.loc },
            )
            &&& actions == seq![Action::SendConfigure(w), Action::ReLayout(out)]
        },
        Float::Floating => {
            &&& post.spec_window_state(w).floating == Float::Tiled(
                Some(
                    SavedGeometry {
                        loc: spec_element_location(pre.space.mapped(), w)->0,
                        size: tl_pre.current_size,
                    },
                ),
            )
            &&& tiled_edges_set(tl_post.pending)
            &&& tl_post.pending.size == tl_pre.pending.size
            &&& post.space.mapped() == pre.space.mapped()
            &&& actions == seq![Action::ReLayout(out)]
        },
    }
}

/// Toggle a window's floating status.
///
/// A tiled window becomes floating: a remembered floating placement, if any,
/// is restored (its size requested from the client, its location re-mapped
/// without activating) and the four tiled-edge flags are cleared. A floating
/// window becomes tiled: its current placement is remembered and the four
/// tiled-edge flags are set. Either way a re-layout of the focused output is
/// requested, and a raise of the window to the top of the stacking order is
/// deferred until the windows visible on that output have painted the
/// change.
pub fn toggle_floating(state: &mut State, window: Window) -> (actions: Vec<Action>)
    requires
        old(state).wf(),
        old(state).focus_state.focused_output is Some,
        spec_window_consistent(old(state).space.mapped(), window),
        !(old(state).spec_window_state(window.id).floating is Tiled
            && old(state).spec_window_state(window.id).floating->Tiled_0 is None) ==> spec_has_window(
            old(state).space.mapped(),
            window.id,
        ),
    ensures
        final(state).wf(),
        toggle_rel(*old(state), *final(state), actions@, window),
{
    let w = window.id;
    let fl = match state.get_window_state(w) {
        Some(ws) => ws.floating,
        None => Float::Tiled(None),
    };
    proof {
        assert(fl == old(state).spec_window_state(w).floating);
    }
    let mut actions: Vec<Action> = Vec::new();
    let mut p = state.toplevel(w).pending;
    let new_float: Float;
    match fl {
        Float::Tiled(prev) => {
            match prev {
                Some(sg) => {
                    p.size = Some(sg.size);
                    actions.push(Action::SendConfigure(w));
                    let ghost s_before = state.space.mapped();
                    state.space.map_element(window, sg.loc, false);
                    proof {
                        let i = spec_window_index(s_before, w);
                        assert(s_before[i].window == window);
                        let t = state.space.mapped();
                        assert(forall|a: int| 0 <= a < t.len() ==> t[a].window == s_before[a].window);
                        assert forall|a: int, b: int|
                            0 <= a < t.len() && 0 <= b < state.windows@.len() implies t[a].window.id
                            != state.windows@[b].id && t[a].window.surface
                            != state.windows@[b].surface by {
                            assert(s_before[a].window.id != old(state).windows@[b].id);
                        }
                    }
                },
                None => {},
            }
            p.tiled_top = false;
            p.tiled_bottom = false;
            p.tiled_left = false;
            p.tiled_right = false;
            new_float = Float::Floating;
        },
        Float::Floating => {
            let loc = match state.space.element_location(w) {
                Some(l) => l,
                None => {
                    proof {
                        assert(false);
                    }
                    Point { x: 0, y: 0 }
                },
            };
            let size = state.toplevel(w).current_size;
            new_float = Float::Tiled(Some(SavedGeometry { loc, size }));
            p.tiled_top = true;
            p.tiled_bottom = true;
            p.tiled_left = true;
            p.tiled_right = true;
        },
    }
    proof {
        assert(state.window_states == old(state).window_states);
        assert(state.toplevels == old(state).toplevels);
        assert(state.idle_queue == old(state).idle_queue);
    }
    let ghost s_join = *state;
    state.set_window_floating(w, new_float);
    let ghost s_float = *state;
    state.set_pending_configure(w, p);
    let out = match state.focus_state.focused_output {
        Some(o) => o,
        None => {
            proof {
                assert(false);
            }
            0
        },
    };
    actions.push(Action::ReLayout(out));
    let ghost mid = *state;
    let pairs = state.visible_window_serials(out);
    state.schedule(Condition::AllCommitted(pairs), DeferredAction::Raise(window));
    proof {
        lemma_visible_serials_congruent(mid, *state, mid.space.mapped(), out);
        assert(state.idle_queue@.last().condition matches Condition::AllCommitted(ps) && ps@
            == spec_visible_serials_of(*state, state.space.mapped(), out));
        assert forall|w2: WindowId|
            w2 != window.id implies state.spec_window_state(w2) == old(state).spec_window_state(
            w2,
        ) by {
            assert(s_join.spec_window_state(w2) == old(state).spec_window_state(w2));
            assert(s_float.spec_window_state(w2) == s_join.spec_window_state(w2));
            assert(mid.spec_window_state(w2) == s_float.spec_window_state(w2));
            assert(state.spec_window_state(w2) == mid.spec_window_state(w2));
        }
        assert forall|w2: WindowId|
            w2 != window.id implies state.spec_toplevel(w2) == old(state).spec_toplevel(w2) by {
            assert(s_join.spec_toplevel(w2) == old(state).spec_toplevel(w2));
            assert(s_float.spec_toplevel(w2) == s_join.spec_toplevel(w2));
            assert(mid.spec_toplevel(w2) == s_float.spec_toplevel(w2));
            assert(state.spec_toplevel(w2) == mid.spec_toplevel(w2));
        }
        assert(state.spec_window_state(window.id).tags == old(state).spec_window_state(
            window.id,
        ).tags);
        assert(state.spec_window_state(window.id).fullscreen_or_maximized == old(
            state,
        ).spec_window_state(window.id).fullscreen_or_maximized);
        assert(state.spec_toplevel(window.id).acked_fullscreen == old(state).spec_toplevel(
            window.id,
        ).acked_fullscreen);
        assert(state.spec_toplevel(window.id).current_size == old(state).spec_toplevel(
            window.id,
        ).current_size);
        assert(state.spec_toplevel(window.id).commit_count == old(state).spec_toplevel(
            window.id,
        ).commit_count);
        match old(state).spec_window_state(w).floating {
            Float::Tiled(prev) => {
                match prev {
                    Some(sg) => {
                        assert(actions@ =~= seq![Action::SendConfigure(w), Action::ReLayout(out)]);
                    },
                    None => {
                        assert(actions@ =~= seq![Action::ReLayout(out)]);
                    },
                }
            },
            Float::Floating => {
                assert(actions@ =~= seq![Action::ReLayout(out)]);
            },
        }
    }
    actions
}

/// Law of the tiled round trip: a window tiled with no remembered floating
/// placement, toggled to floating and back, ends with all four tiled-edge
/// flags set again; each transition requests exactly one re-layout; and no
/// saved geometry is consulted on the way: no size is requested and the
/// placement registry is left untouched by both transitions.
pub proof fn lemma_toggle_roundtrip_tiled_none(
    st0: State,
    st1: State,
    st2: State,
    a1: Seq<Action>,
    a2: Seq<Action>,
    window: Window,
)
    requires
        st0.focus_state.focused_output is Some,
        st0.spec_window_state(window.id).floating == Float::Tiled(None::<SavedGeometry>),
        toggle_rel(st0, st1, a1, window),
        toggle_rel(st1, st2, a2, window),
    ensures
        st1.spec_window_state(window.id).floating is Floating,
        tiled_edges_clear(st1.spec_toplevel(window.id).pending),
        st2.spec_window_state(window.id).floating is Tiled,
        tiled_edges_set(st2.spec_toplevel(window.id).pending),
        a1 == seq![Action::ReLayout(st0.focus_state.focused_output->0)],
        a2 == seq![Action::ReLayout(st0.focus_state.focused_output->0)],
        st1.spec_toplevel(window.id).pending.size == st0.spec_toplevel(window.id).pending.size,
        st2.spec_toplevel(window.id).pending.size == st0.spec_toplevel(window.id).pending.size,
        st1.space.mapped() == st0.space.mapped(),
        st2.space.mapped() == st0.space.mapped(),
{
    assert(st1.focus_state == st0.focus_state);
}

/// Law of the saved-geometry restore: toggling a tiled window that remembers
/// the floating placement `(sg.loc, sg.size)` restores exactly that
/// placement — the window is re-mapped at `sg.loc` without activating
/// anything, and `sg.size` is requested from its client.
pub proof fn lemma_toggle_restores_saved_geometry(
    st0: State,
    st1: State,
    a1: Seq<Action>,
    window: Window,
    sg: SavedGeometry,
)
    requires
        st0.wf(),
        st0.focus_state.focused_output is Some,
        st0.spec_window_state(window.id).floating == Float::Tiled(Some(sg)),
        spec_has_window(st0.space.mapped(), window.id),
        spec_window_consistent(st0.space.mapped(), window),
        toggle_rel(st0, st1, a1, window),
    ensures
        spec_element_location(st1.space.mapped(), window.id) == Some(sg.loc),
        st1.spec_toplevel(window.id).pending.size == Some(sg.size),
        st1.spec_window_state(window.id).floating is Floating,
        st1.space.active() == st0.space.active(),
        a1 == seq![Action::SendConfigure(window.id), Action::ReLayout(
            st0.focus_state.focused_output->0,
        )],
{
    let s = st0.space.mapped();
    let i = spec_window_index(s, window.id);
    assert(0 <= i < s.len() && s[i].window.id == window.id);
    let t = s.update(i, MappedWindow { window, loc: sg.loc });
    assert(st1.space.mapped() == t);
    assert(t[i].window.id == window.id);
    assert(spec_has_window(t, window.id));
    let k = spec_window_index(t, window.id);
    assert(0 <= k < t.len() && t[k].window.id == window.id);
    if k != i {
        assert(s[k].window.id == t[k].window.id);
        assert(false);
    }
    assert(spec_element_location(t, window.id) == Some(sg.loc));
}

/// One operation on the commit barrier: an increment, a decrement, or the
/// arrival of a commit.
#[derive(Clone, Copy, PartialEq, Eq, Debug)]
pub enum BarrierOp {
    Acquire,
    Release,
    Submit(SurfaceId),
}

/// Barrier state reached after a sequence of operations: the counter, the
/// commits still queued, and the commits applied so far, both in order.
pub struct BarrierRun {
    pub counter: int,
    pub queued: Seq<SurfaceId>,
    pub applied: Seq<SurfaceId>,
}

/// The barrier's transition relation, folded over a sequence of operations
/// starting from a fresh barrier. Each step matches the contract of the
/// corresponding [`CommitBarrier`] method.
pub open spec fn barrier_run(ops: Seq<BarrierOp>) -> BarrierRun
    decreases ops.len(),
{
    if ops.len() == 0 {
        BarrierRun { counter: 0, queued: Seq::empty(), applied: Seq::empty() }
    } else {
        let prev = barrier_run(ops.drop_last());
        match ops.last() {
            BarrierOp::Acquire => BarrierRun {
                counter: prev.counter + 1,
                queued: prev.queued,
                applied: prev.applied,
            },
            BarrierOp::Release => if prev.counter == 1 {
                BarrierRun {
                    counter: 0,
                    queued: Seq::empty(),
                    applied: prev.applied + prev.queued,
                }
            } else {
                BarrierRun { counter: prev.counter - 1, queued: prev.queued, applied: prev.applied }
            },
            BarrierOp::Submit(s) => if prev.counter > 0 {
                BarrierRun {
                    counter: prev.counter,
                    queued: prev.queued.push(s),
                    applied: prev.applied,
                }
            } else {
                BarrierRun {
                    counter: prev.counter,
                    queued: prev.queued,
                    applied: prev.applied.push(s),
                }
            },
        }
    }
}

/// How many acquires a sequence of operations holds.
pub open spec fn barrier_acquires(ops: Seq<BarrierOp>) -> int
    decreases ops.len(),
{
    if ops.len() == 0 {
        0
    } else {
        barrier_acquires(ops.drop_last()) + if ops.last() is Acquire {
            1int
        } else {
            0int
        }
    }
}

/// How many releases a sequence of operations holds.
pub open spec fn barrier_releases(ops: Seq<BarrierOp>) -> int
    decreases ops.len(),
{
    if ops.len() == 0 {
        0
    } else {
        barrier_releases(ops.drop_last()) + if ops.last() is Release {
            1int
        } else {
            0int
        }
    }
}

/// The commits a sequence of operations submits, in submission order.
pub open spec fn barrier_submits(ops: Seq<BarrierOp>) -> Seq<SurfaceId>
    decreases ops.len(),
{
    if ops.len() == 0 {
        Seq::empty()
    } else {
        match ops.last() {
            BarrierOp::Submit(s) => barrier_submits(ops.drop_last()).push(s),
            _ => barrier_submits(ops.drop_last()),
        }
    }
}

/// No prefix of `ops` releases more than it acquired: the counter is never
/// driven negative.
pub open spec fn barrier_prefixes_nonneg(ops: Seq<BarrierOp>) -> bool {
    forall|i: int|
        0 <= i <= ops.len() ==> barrier_releases(#[trigger] ops.take(i)) <= barrier_acquires(
            ops.take(i),
        )
}

/// Running invariant of the barrier: the counter is the excess of acquires
/// over releases, every submitted commit is either applied or still queued
/// with submission order preserved across the two, and the queue is empty
/// whenever the counter is zero.
proof fn lemma_barrier_run_invariant(ops: Seq<BarrierOp>)
    requires
        barrier_prefixes_nonneg(ops),
    ensures
        barrier_run(ops).counter == barrier_acquires(ops) - barrier_releases(ops),
        barrier_run(ops).applied + barrier_run(ops).queued == barrier_submits(ops),
        barrier_run(ops).counter == 0 ==> barrier_run(ops).queued == Seq::<SurfaceId>::empty(),
    decreases ops.len(),
{
    if ops.len() == 0 {
        assert(barrier_run(ops).applied + barrier_run(ops).queued =~= barrier_submits(ops));
    } else {
        let prefix = ops.drop_last();
        assert(barrier_prefixes_nonneg(prefix)) by {
            assert forall|i: int|
                0 <= i <= prefix.len() implies barrier_releases(
                #[trigger] prefix.take(i),
            ) <= barrier_acquires(prefix.take(i)) by {
                assert(prefix.take(i) =~= ops.take(i));
            }
        }
        lemma_barrier_run_invariant(prefix);
        let prev = barrier_run(prefix);
        assert(ops.take(ops.len() - 1) =~= prefix);
        assert(ops.take(ops.len() as int) =~= ops);
        match ops.last() {
            BarrierOp::Acquire => {
                assert(barrier_run(ops).applied + barrier_run(ops).queued =~= barrier_submits(
                    ops,
                ));
            },
            BarrierOp::Release => {
                if prev.counter == 1 {
                    assert(barrier_run(ops).applied + barrier_run(ops).queued =~= prev.applied
                        + prev.queued);
                } else {
                    assert(barrier_run(ops).applied + barrier_run(ops).queued =~= barrier_submits(
                        ops,
                    ));
                }
            },
            BarrierOp::Submit(s) => {
                if prev.counter > 0 {
                    assert(barrier_run(ops).applied + barrier_run(ops).queued =~= barrier_submits(
                        ops,
                    ));
                } else {
                    assert(barrier_run(ops).applied + barrier_run(ops).queued =~= barrier_submits(
                        ops,
                    ));
                }
            },
        }
    }
}

/// Law of the commit barrier: for any sequence of operations whose releases
/// are always covered by earlier acquires and that ends balanced, the counter
/// returns to zero, nothing stays queued, and every submitted commit was
/// applied in its original submission order.
pub proof fn lemma_barrier_balanced(ops: Seq<BarrierOp>)
    requires
        barrier_prefixes_nonneg(ops),
        barrier_acquires(ops) == barrier_releases(ops),
    ensures
        barrier_run(ops).counter == 0,
        barrier_run(ops).queued == Seq::<SurfaceId>::empty(),
        barrier_run(ops).applied == barrier_submits(ops),
{
    lemma_barrier_run_invariant(ops);
    assert(barrier_run(ops).applied =~= barrier_run(ops).applied + barrier_run(ops).queued);
}

/// What a surface's commit gate reports: released, or pending behind the
/// barrier.
#[derive(Clone, Copy, PartialEq, Eq, Structural, Debug)]
pub enum BlockerState {
    Released,
    Pending,
}

/// The commit gate attached to surfaces under interactive resize: it reports
/// pending exactly while the barrier counter is above zero.
pub struct WindowBlocker;

impl WindowBlocker {
    pub fn state(&self, barrier: &CommitBarrier) -> (r: BlockerState)
        ensures
            r == BlockerState::Pending <==> barrier.counter() > 0,
            r == BlockerState::Released <==> barrier.counter() == 0,
    {
        if barrier.count() > 0 {
            BlockerState::Pending
        } else {
            BlockerState::Released
        }
    }
}

} // verus!
