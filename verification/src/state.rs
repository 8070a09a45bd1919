//! The compositor core's state: the placement registry, the foreign window
//! set, the per-window / per-output / per-surface side records, the commit
//! barrier and the idle retry queue. Records are created lazily with default
//! values on first access.

use std::collections::HashMap;

use vstd::prelude::*;

use crate::output::{OutputId, OutputState};
use crate::space::{
    spec_has_surface, spec_has_window, spec_surface_index, MappedWindow, Space,
};
use crate::tag::TagId;
use crate::window::{
    spec_default_toplevel, spec_default_window_state, CommitBarrier, Float, FullscreenOrMaximized,
    SurfaceId, ToplevelState, Window, WindowId, WindowState, WindowStateView,
};

verus! {

broadcast use vstd::std_specs::hash::group_hash_axioms;

/// Opaque token stored on behalf of the interactive-resize collaborator;
/// this core keeps it but never interprets it.
#[derive(Clone, Copy, PartialEq, Eq, Structural, Debug)]
pub enum ResizeState {
    Idle,
    Resizing,
}

/// Side record attached to a surface.
#[derive(Clone, Copy, PartialEq, Eq, Structural, Debug)]
pub struct WlSurfaceState {
    pub resize_state: ResizeState,
}

impl Default for WlSurfaceState {
    /// A fresh surface record is idle.
    fn default() -> (r: WlSurfaceState)
        ensures
            r == spec_default_surface_state(),
    {
        WlSurfaceState { resize_state: ResizeState::Idle }
    }
}

/// The surface record every surface starts from.
pub open spec fn spec_default_surface_state() -> WlSurfaceState {
    WlSurfaceState { resize_state: ResizeState::Idle }
}

/// Focus bookkeeping supplied by input dispatch; read-only to this core but
/// for configuration reload.
#[derive(Clone, Copy, PartialEq, Eq, Structural, Debug)]
pub struct FocusState {
    pub focused_output: Option<OutputId>,
}

impl FocusState {
    pub fn new() -> (r: FocusState)
        ensures
            r.focused_output is None,
    {
        FocusState { focused_output: None }
    }
}

/// A condition an idle callback waits for, evaluated against current shared
/// state; it must be cheap and side-effect free, and here it is a closed
/// union of the conditions this compositor defers on.
#[derive(Clone, PartialEq, Debug)]
pub enum Condition {
    /// Every listed window has applied a commit newer than the recorded
    /// count: its surface has painted a frame since the work was scheduled.
    AllCommitted(Vec<(WindowId, u64)>),
}

/// An action deferred until its condition holds; a closed union of the
/// actions this compositor defers.
#[derive(Clone, Copy, PartialEq, Eq, Structural, Debug)]
pub enum DeferredAction {
    /// Raise the window to the top of the stacking order and activate it.
    Raise(Window),
}

/// One entry of the idle retry queue.
#[derive(Clone, PartialEq, Debug)]
pub struct ScheduledWork {
    pub condition: Condition,
    pub action: DeferredAction,
}

/// A request this core makes of an external collaborator.
#[derive(Clone, Copy, PartialEq, Eq, Structural, Debug)]
pub enum Action {
    /// Recompute tiled geometry for the output's active tags.
    ReLayout(OutputId),
    /// Send the window's pending configure to its client.
    SendConfigure(WindowId),
}

/// Whether some foreign window carries surface `s`.
pub open spec fn spec_foreign_has_surface(ws: Seq<Window>, s: SurfaceId) -> bool {
    exists|i: int| 0 <= i < ws.len() && ws[i].surface == s
}

/// Index of the foreign window carrying surface `s`.
pub open spec fn spec_foreign_surface_index(ws: Seq<Window>, s: SurfaceId) -> int {
    choose|i: int| 0 <= i < ws.len() && ws[i].surface == s
}

/// The main state of the compositor core.
pub struct State {
    /// The placement registry of managed windows.
    pub space: Space,
    /// Foreign/unmanaged windows, not yet integrated into the registry.
    pub windows: Vec<Window>,
    /// Side records per window.
    pub window_states: HashMap<u64, WindowState>,
    /// Modeled toplevel protocol state per window.
    pub toplevels: HashMap<u64, ToplevelState>,
    /// Side records per output.
    pub output_states: HashMap<u64, OutputState>,
    /// Side records per surface.
    pub surface_states: HashMap<u64, WlSurfaceState>,
    /// The commit-ordering barrier.
    pub blocker: CommitBarrier,
    /// Focus bookkeeping.
    pub focus_state: FocusState,
    /// Deferred work waiting on conditions.
    pub idle_queue: Vec<ScheduledWork>,
}

impl State {
    /// The side record of window `w`, default if none was stored yet.
    pub open spec fn spec_window_state(self, w: WindowId) -> WindowStateView {
        if self.window_states@.contains_key(w) {
            self.window_states@[w]@
        } else {
            spec_default_window_state()
        }
    }

    /// The toplevel state of window `w`, default if none was stored yet.
    pub open spec fn spec_toplevel(self, w: WindowId) -> ToplevelState {
        if self.toplevels@.contains_key(w) {
            self.toplevels@[w]
        } else {
            spec_default_toplevel()
        }
    }

    /// The tags viewed on output `o`, empty if none were stored yet.
    pub open spec fn spec_focused_tags(self, o: OutputId) -> Seq<TagId> {
        if self.output_states@.contains_key(o) {
            self.output_states@[o].focused_tags@
        } else {
            Seq::empty()
        }
    }

    /// The side record of surface `s`, default if none was stored yet.
    pub open spec fn spec_surface_state(self, s: SurfaceId) -> WlSurfaceState {
        if self.surface_states@.contains_key(s) {
            self.surface_states@[s]
        } else {
            spec_default_surface_state()
        }
    }

    /// Well-formedness: the registry is well formed, foreign windows are
    /// pairwise distinct, and no window or surface is present both in the
    /// managed registry and in the foreign set.
    pub open spec fn wf(self) -> bool {
        &&& self.space.wf()
        &&& forall|i: int, j: int|
            0 <= i < j < self.windows@.len() ==> self.windows@[i].id != self.windows@[j].id
                && self.windows@[i].surface != self.windows@[j].surface
        &&& forall|a: int, b: int|
            0 <= a < self.space.mapped().len() && 0 <= b < self.windows@.len() ==> {
                &&& self.space.mapped()[a].window.id != self.windows@[b].id
                &&& self.space.mapped()[a].window.surface != self.windows@[b].surface
            }
    }

    /// A fresh core: nothing mapped, no windows, no records, barrier down,
    /// nothing focused, nothing deferred.
    pub fn new() -> (r: State)
        ensures
            r.space.mapped() == Seq::<MappedWindow>::empty(),
            r.space.outputs() == Seq::<(OutputId, crate::geometry::Rect)>::empty(),
            r.windows@ == Seq::<Window>::empty(),
            r.window_states@ == Map::<u64, WindowState>::empty(),
            r.toplevels@ == Map::<u64, ToplevelState>::empty(),
            r.output_states@ == Map::<u64, OutputState>::empty(),
            r.surface_states@ == Map::<u64, WlSurfaceState>::empty(),
            r.blocker.counter() == 0,
            r.blocker.queued() == Seq::<SurfaceId>::empty(),
            r.focus_state.focused_output is None,
            r.idle_queue@ == Seq::<ScheduledWork>::empty(),
            r.wf(),
    {
        State {
            space: Space::new(),
            windows: Vec::new(),
            window_states: HashMap::new(),
            toplevels: HashMap::new(),
            output_states: HashMap::new(),
            surface_states: HashMap::new(),
            blocker: CommitBarrier::new(),
            focus_state: FocusState::new(),
            idle_queue: Vec::new(),
        }
    }

    /// The stored side record of window `w`, if any.
    pub fn get_window_state(&self, w: WindowId) -> (r: Option<&WindowState>)
        ensures
            match r {
                Some(s) => self.window_states@.contains_key(w) && *s == self.window_states@[w],
                None => !self.window_states@.contains_key(w),
            },
    {
        self.window_states.get(&w)
    }

    /// The toplevel state of window `w`, default if none was stored.
    pub fn toplevel(&self, w: WindowId) -> (r: ToplevelState)
        ensures
            r == self.spec_toplevel(w),
    {
        match self.toplevels.get(&w) {
            Some(t) => *t,
            None => ToplevelState::default(),
        }
    }

    /// The stored side record of output `o`, if any.
    pub fn get_output_state(&self, o: OutputId) -> (r: Option<&OutputState>)
        ensures
            match r {
                Some(s) => self.output_states@.contains_key(o) && *s == self.output_states@[o],
                None => !self.output_states@.contains_key(o),
            },
    {
        self.output_states.get(&o)
    }

    /// The side record of surface `s`, default if none was stored.
    pub fn surface_state(&self, s: SurfaceId) -> (r: WlSurfaceState)
        ensures
            r == self.spec_surface_state(s),
    {
        match self.surface_states.get(&s) {
            Some(st) => *st,
            None => WlSurfaceState::default(),
        }
    }
}

/// Ghost state threaded through one idle pass: the stacking order, the
/// active window, and the entries kept for the next pass.
pub struct IdleRun {
    pub mapped: Seq<MappedWindow>,
    pub active: Option<WindowId>,
    pub kept: Seq<ScheduledWork>,
}

/// The stacking order after raising window `id` to the top; unchanged when
/// the window is not mapped.
pub open spec fn spec_raised(s: Seq<MappedWindow>, id: WindowId) -> Seq<MappedWindow> {
    if spec_has_window(s, id) {
        let i = crate::space::spec_window_index(s, id);
        s.remove(i).push(s[i])
    } else {
        s
    }
}

/// One idle pass folded over the queue, front to back: an entry whose
/// condition holds in `st0` performs its action; the others are kept in
/// order.
pub open spec fn spec_run_idle(st0: State, m: IdleRun, q: Seq<ScheduledWork>) -> IdleRun
    decreases q.len(),
{
    if q.len() == 0 {
        m
    } else {
        let w = q[0];
        let m2 = if st0.spec_condition_holds(w.condition) {
            match w.action {
                DeferredAction::Raise(win) => IdleRun {
                    mapped: spec_raised(m.mapped, win.id),
                    active: if spec_has_window(m.mapped, win.id) {
                        Some(win.id)
                    } else {
                        m.active
                    },
                    kept: m.kept,
                },
            }
        } else {
            IdleRun { mapped: m.mapped, active: m.active, kept: m.kept.push(w) }
        };
        spec_run_idle(st0, m2, q.drop_first())
    }
}

/// The windows of `s` (bottom to top) visible on output `o` in state `st`,
/// each paired with its current commit count.
pub open spec fn spec_visible_serials_of(st: State, s: Seq<MappedWindow>, o: OutputId) -> Seq<
    (WindowId, u64),
>
    decreases s.len(),
{
    if s.len() == 0 {
        Seq::empty()
    } else {
        let rest = spec_visible_serials_of(st, s.drop_last(), o);
        let id = s.last().window.id;
        if st.spec_window_included(id, o) {
            rest.push((id, st.spec_toplevel(id).commit_count))
        } else {
            rest
        }
    }
}

/// Visibility and commit counts read only the side records and toplevels.
pub proof fn lemma_visible_serials_congruent(a: State, b: State, s: Seq<MappedWindow>, o: OutputId)
    requires
        a.window_states == b.window_states,
        a.toplevels == b.toplevels,
        a.output_states == b.output_states,
    ensures
        spec_visible_serials_of(a, s, o) == spec_visible_serials_of(b, s, o),
    decreases s.len(),
{
    if s.len() > 0 {
        lemma_visible_serials_congruent(a, b, s.drop_last(), o);
    }
}

/// Condition evaluation reads only the toplevel states.
proof fn lemma_condition_eval_stable(a: State, b: State, c: Condition)
    requires
        a.toplevels == b.toplevels,
    ensures
        a.spec_condition_holds(c) == b.spec_condition_holds(c),
{
    match c {
        Condition::AllCommitted(pairs) => {
            if a.spec_condition_holds(c) {
                assert forall|i: int|
                    0 <= i < pairs@.len() implies b.spec_toplevel(
                    #[trigger] pairs@[i].0,
                ).commit_count > pairs@[i].1 by {
                    assert(a.spec_toplevel(pairs@[i].0).commit_count > pairs@[i].1);
                }
            }
            if b.spec_condition_holds(c) {
                assert forall|i: int|
                    0 <= i < pairs@.len() implies a.spec_toplevel(
                    #[trigger] pairs@[i].0,
                ).commit_count > pairs@[i].1 by {
                    assert(b.spec_toplevel(pairs@[i].0).commit_count > pairs@[i].1);
                }
            }
        },
    }
}

/// A permutation of the mapped entries stays disjoint from the foreign set.
proof fn lemma_disjoint_after_permutation(
    old_mapped: Seq<MappedWindow>,
    new_mapped: Seq<MappedWindow>,
    ws: Seq<Window>,
)
    requires
        forall|e: MappedWindow| #[trigger] new_mapped.contains(e) ==> old_mapped.contains(e),
        forall|a: int, b: int|
            0 <= a < old_mapped.len() && 0 <= b < ws.len() ==> old_mapped[a].window.id != ws[b].id
                && old_mapped[a].window.surface != ws[b].surface,
    ensures
        forall|a: int, b: int|
            0 <= a < new_mapped.len() && 0 <= b < ws.len() ==> new_mapped[a].window.id != ws[b].id
                && new_mapped[a].window.surface != ws[b].surface,
{
    assert forall|a: int, b: int|
        0 <= a < new_mapped.len() && 0 <= b < ws.len() implies new_mapped[a].window.id != ws[b].id
        && new_mapped[a].window.surface != ws[b].surface by {
        let e = new_mapped[a];
        assert(new_mapped.contains(e));
        assert(old_mapped.contains(e));
        let a0 = choose|k: int| 0 <= k < old_mapped.len() && old_mapped[k] == e;
        assert(old_mapped[a0].window.id != ws[b].id);
    }
}

/// Law of the window lookup: under the disjointness invariant, a surface of
/// a foreign window is never resolvable through the managed registry and
/// resolves to exactly that foreign window, and a surface of a mapped window
/// is never in the foreign set and resolves to exactly that mapped window.
pub proof fn lemma_managed_foreign_exclusive(st: State)
    requires
        st.wf(),
    ensures
        forall|b: int|
            0 <= b < st.windows@.len() ==> !spec_has_surface(
                st.space.mapped(),
                #[trigger] st.windows@[b].surface,
            ) && st.spec_window_for_surface(st.windows@[b].surface) == Some(st.windows@[b]),
        forall|a: int|
            0 <= a < st.space.mapped().len() ==> !spec_foreign_has_surface(
                st.windows@,
                #[trigger] st.space.mapped()[a].window.surface,
            ) && st.spec_window_for_surface(st.space.mapped()[a].window.surface) == Some(
                st.space.mapped()[a].window,
            ),
{
    assert forall|b: int| 0 <= b < st.windows@.len() implies !spec_has_surface(
        st.space.mapped(),
        #[trigger] st.windows@[b].surface,
    ) && st.spec_window_for_surface(st.windows@[b].surface) == Some(st.windows@[b]) by {
        let s = st.windows@[b].surface;
        if spec_has_surface(st.space.mapped(), s) {
            let a = spec_surface_index(st.space.mapped(), s);
            assert(0 <= a < st.space.mapped().len() && st.space.mapped()[a].window.surface == s);
            assert(false);
        }
        assert(spec_foreign_has_surface(st.windows@, s));
        let k = spec_foreign_surface_index(st.windows@, s);
        assert(0 <= k < st.windows@.len() && st.windows@[k].surface == s);
        if k != b {
            assert(false);
        }
    }
    assert forall|a: int| 0 <= a < st.space.mapped().len() implies !spec_foreign_has_surface(
        st.windows@,
        #[trigger] st.space.mapped()[a].window.surface,
    ) && st.spec_window_for_surface(st.space.mapped()[a].window.surface) == Some(
        st.space.mapped()[a].window,
    ) by {
        let s = st.space.mapped()[a].window.surface;
        if spec_foreign_has_surface(st.windows@, s) {
            let b = spec_foreign_surface_index(st.windows@, s);
            assert(0 <= b < st.windows@.len() && st.windows@[b].surface == s);
            assert(false);
        }
        assert(spec_has_surface(st.space.mapped(), s));
        let k = spec_surface_index(st.space.mapped(), s);
        assert(0 <= k < st.space.mapped().len() && st.space.mapped()[k].window.surface == s);
        if k != a {
            assert(false);
        }
    }
}

/// Everything but the per-window side records is the same in `a` and `b`.
pub open spec fn same_but_window_states(a: State, b: State) -> bool {
    &&& a.space == b.space
    &&& a.windows == b.windows
    &&& a.toplevels == b.toplevels
    &&& a.output_states == b.output_states
    &&& a.surface_states == b.surface_states
    &&& a.blocker == b.blocker
    &&& a.focus_state == b.focus_state
    &&& a.idle_queue == b.idle_queue
}

/// Everything but the toplevel states is the same in `a` and `b`.
pub open spec fn same_but_toplevels(a: State, b: State) -> bool {
    &&& a.space == b.space
    &&& a.windows == b.windows
    &&& a.window_states == b.window_states
    &&& a.output_states == b.output_states
    &&& a.surface_states == b.surface_states
    &&& a.blocker == b.blocker
    &&& a.focus_state == b.focus_state
    &&& a.idle_queue == b.idle_queue
}

/// Everything but the per-output side records is the same in `a` and `b`.
pub open spec fn same_but_output_states(a: State, b: State) -> bool {
    &&& a.space == b.space
    &&& a.windows == b.windows
    &&& a.window_states == b.window_states
    &&& a.toplevels == b.toplevels
    &&& a.surface_states == b.surface_states
    &&& a.blocker == b.blocker
    &&& a.focus_state == b.focus_state
    &&& a.idle_queue == b.idle_queue
}

/// Everything but the per-surface side records is the same in `a` and `b`.
pub open spec fn same_but_surface_states(a: State, b: State) -> bool {
    &&& a.space == b.space
    &&& a.windows == b.windows
    &&& a.window_states == b.window_states
    &&& a.toplevels == b.toplevels
    &&& a.output_states == b.output_states
    &&& a.blocker == b.blocker
    &&& a.focus_state == b.focus_state
    &&& a.idle_queue == b.idle_queue
}

impl State {
    /// Store the set of tags of window `w`, keeping the rest of its record.
    pub fn set_window_tags(&mut self, w: WindowId, tags: Vec<TagId>)
        ensures
            final(self).spec_window_state(w) == (WindowStateView {
                tags: tags@,
                ..old(self).spec_window_state(w)
            }),
            forall|w2: WindowId|
                w2 != w ==> final(self).spec_window_state(w2) == old(self).spec_window_state(w2),
            same_but_window_states(*old(self), *final(self)),
            old(self).wf() ==> final(self).wf(),
    {
        let mut st = match self.window_states.remove(&w) {
            Some(s) => s,
            None => WindowState::default(),
        };
        st.tags = tags;
        self.window_states.insert(w, st);
    }

    /// Store the floating state of window `w`, keeping the rest of its record.
    pub fn set_window_floating(&mut self, w: WindowId, floating: Float)
        ensures
            final(self).spec_window_state(w) == (WindowStateView {
                floating,
                ..old(self).spec_window_state(w)
            }),
            forall|w2: WindowId|
                w2 != w ==> final(self).spec_window_state(w2) == old(self).spec_window_state(w2),
            same_but_window_states(*old(self), *final(self)),
            old(self).wf() ==> final(self).wf(),
    {
        let mut st = match self.window_states.remove(&w) {
            Some(s) => s,
            None => WindowState::default(),
        };
        st.floating = floating;
        self.window_states.insert(w, st);
    }

    /// Store the fullscreen/maximized flag of window `w`, keeping the rest of
    /// its record.
    pub fn set_fullscreen_or_maximized(&mut self, w: WindowId, v: FullscreenOrMaximized)
        ensures
            final(self).spec_window_state(w) == (WindowStateView {
                fullscreen_or_maximized: v,
                ..old(self).spec_window_state(w)
            }),
            forall|w2: WindowId|
                w2 != w ==> final(self).spec_window_state(w2) == old(self).spec_window_state(w2),
            same_but_window_states(*old(self), *final(self)),
            old(self).wf() ==> final(self).wf(),
    {
        let mut st = match self.window_states.remove(&w) {
            Some(s) => s,
            None => WindowState::default(),
        };
        st.fullscreen_or_maximized = v;
        self.window_states.insert(w, st);
    }

    /// Store the pending configure of window `w`'s toplevel.
    pub fn set_pending_configure(&mut self, w: WindowId, p: crate::window::PendingConfigure)
        ensures
            final(self).spec_toplevel(w) == (ToplevelState {
                pending: p,
                ..old(self).spec_toplevel(w)
            }),
            forall|w2: WindowId|
                w2 != w ==> final(self).spec_toplevel(w2) == old(self).spec_toplevel(w2),
            same_but_toplevels(*old(self), *final(self)),
            old(self).wf() ==> final(self).wf(),
    {
        let mut t = self.toplevel(w);
        t.pending = p;
        self.toplevels.insert(w, t);
    }

    /// Store the acknowledged fullscreen flag of window `w`'s toplevel.
    pub fn set_acked_fullscreen(&mut self, w: WindowId, v: bool)
        ensures
            final(self).spec_toplevel(w) == (ToplevelState {
                acked_fullscreen: v,
                ..old(self).spec_toplevel(w)
            }),
            forall|w2: WindowId|
                w2 != w ==> final(self).spec_toplevel(w2) == old(self).spec_toplevel(w2),
            same_but_toplevels(*old(self), *final(self)),
            old(self).wf() ==> final(self).wf(),
    {
        let mut t = self.toplevel(w);
        t.acked_fullscreen = v;
        self.toplevels.insert(w, t);
    }

    /// Store the size window `w`'s client currently shows.
    pub fn set_current_size(&mut self, w: WindowId, size: crate::geometry::Size)
        ensures
            final(self).spec_toplevel(w) == (ToplevelState {
                current_size: size,
                ..old(self).spec_toplevel(w)
            }),
            forall|w2: WindowId|
                w2 != w ==> final(self).spec_toplevel(w2) == old(self).spec_toplevel(w2),
            same_but_toplevels(*old(self), *final(self)),
            old(self).wf() ==> final(self).wf(),
    {
        let mut t = self.toplevel(w);
        t.current_size = size;
        self.toplevels.insert(w, t);
    }

    /// A commit was applied for window `w`: its surface has painted a frame.
    pub fn notify_commit(&mut self, w: WindowId)
        requires
            old(self).spec_toplevel(w).commit_count < u64::MAX,
        ensures
            final(self).spec_toplevel(w) == (ToplevelState {
                commit_count: (old(self).spec_toplevel(w).commit_count + 1) as u64,
                ..old(self).spec_toplevel(w)
            }),
            forall|w2: WindowId|
                w2 != w ==> final(self).spec_toplevel(w2) == old(self).spec_toplevel(w2),
            same_but_toplevels(*old(self), *final(self)),
            old(self).wf() ==> final(self).wf(),
    {
        let mut t = self.toplevel(w);
        t.commit_count = t.commit_count + 1;
        self.toplevels.insert(w, t);
    }

    /// Store the tags viewed on output `o`.
    pub fn set_focused_tags(&mut self, o: OutputId, tags: Vec<TagId>)
        ensures
            final(self).spec_focused_tags(o) == tags@,
            forall|o2: OutputId|
                o2 != o ==> final(self).spec_focused_tags(o2) == old(self).spec_focused_tags(o2),
            same_but_output_states(*old(self), *final(self)),
            old(self).wf() ==> final(self).wf(),
    {
        self.output_states.insert(o, OutputState { focused_tags: tags });
    }

    /// Store the side record of surface `s`.
    pub fn set_surface_state(&mut self, s: SurfaceId, st: WlSurfaceState)
        ensures
            final(self).spec_surface_state(s) == st,
            forall|s2: SurfaceId|
                s2 != s ==> final(self).spec_surface_state(s2) == old(self).spec_surface_state(s2),
            same_but_surface_states(*old(self), *final(self)),
            old(self).wf() ==> final(self).wf(),
    {
        self.surface_states.insert(s, st);
    }

    /// Configuration reload: drop every output record, so that every output
    /// views no tags again.
    pub fn clear_output_records(&mut self)
        ensures
            forall|o: OutputId| final(self).spec_focused_tags(o) == Seq::<TagId>::empty(),
            same_but_output_states(*old(self), *final(self)),
            old(self).wf() ==> final(self).wf(),
    {
        self.output_states.clear();
    }

    /// Returns the window owning `surface`: the managed placement registry is
    /// searched first, then the foreign window set. By the disjointness
    /// invariant a surface is never in both, so the result is unambiguous.
    pub fn window_for_surface(&self, surface: &SurfaceId) -> (r: Option<Window>)
        requires
            self.wf(),
        ensures
            r == self.spec_window_for_surface(*surface),
    {
        let mapped = self.space.elements();
        let mut i: usize = 0;
        while i < mapped.len()
            invariant
                self.wf(),
                mapped@ == self.space.mapped(),
                i <= mapped@.len(),
                forall|j: int| 0 <= j < i ==> mapped@[j].window.surface != surface,
            decreases mapped@.len() - i,
        {
            if mapped[i].window.surface == *surface {
                proof {
                    let k = spec_surface_index(self.space.mapped(), *surface);
                    assert(0 <= k < self.space.mapped().len() && self.space.mapped()[k].window.surface
                        == *surface);
                }
                return Some(mapped[i].window);
            }
            i = i + 1;
        }
        let mut j: usize = 0;
        while j < self.windows.len()
            invariant
                self.wf(),
                j <= self.windows@.len(),
                !spec_has_surface(self.space.mapped(), *surface),
                forall|k: int| 0 <= k < j ==> self.windows@[k].surface != surface,
            decreases self.windows@.len() - j,
        {
            if self.windows[j].surface == *surface {
                proof {
                    let k = spec_foreign_surface_index(self.windows@, *surface);
                    assert(0 <= k < self.windows@.len() && self.windows@[k].surface == *surface);
                }
                return Some(self.windows[j]);
            }
            j = j + 1;
        }
        None
    }

    /// What `window_for_surface` returns, as a function of the state.
    pub open spec fn spec_window_for_surface(self, surface: SurfaceId) -> Option<Window> {
        if spec_has_surface(self.space.mapped(), surface) {
            Some(self.space.mapped()[spec_surface_index(self.space.mapped(), surface)].window)
        } else if spec_foreign_has_surface(self.windows@, surface) {
            Some(self.windows@[spec_foreign_surface_index(self.windows@, surface)])
        } else {
            None
        }
    }

    /// Whether any window, managed or foreign, carries id `id`.
    pub fn has_window_id(&self, id: WindowId) -> (r: bool)
        ensures
            r == (spec_has_window(self.space.mapped(), id) || exists|i: int|
                0 <= i < self.windows@.len() && self.windows@[i].id == id),
    {
        let mapped = self.space.elements();
        let mut i: usize = 0;
        while i < mapped.len()
            invariant
                mapped@ == self.space.mapped(),
                i <= mapped@.len(),
                forall|j: int| 0 <= j < i ==> mapped@[j].window.id != id,
            decreases mapped@.len() - i,
        {
            if mapped[i].window.id == id {
                return true;
            }
            i = i + 1;
        }
        let mut j: usize = 0;
        while j < self.windows.len()
            invariant
                j <= self.windows@.len(),
                !spec_has_window(self.space.mapped(), id),
                forall|k: int| 0 <= k < j ==> self.windows@[k].id != id,
            decreases self.windows@.len() - j,
        {
            if self.windows[j].id == id {
                return true;
            }
            j = j + 1;
        }
        false
    }

    /// Add a window of the foreign set; its id and surface must be fresh.
    pub fn add_foreign_window(&mut self, win: Window)
        requires
            old(self).wf(),
            !spec_has_window(old(self).space.mapped(), win.id),
            !spec_has_surface(old(self).space.mapped(), win.surface),
            forall|i: int|
                0 <= i < old(self).windows@.len() ==> old(self).windows@[i].id != win.id && old(
                    self,
                ).windows@[i].surface != win.surface,
        ensures
            final(self).windows@ == old(self).windows@.push(win),
            final(self).space == old(self).space,
            final(self).window_states == old(self).window_states,
            final(self).toplevels == old(self).toplevels,
            final(self).output_states == old(self).output_states,
            final(self).surface_states == old(self).surface_states,
            final(self).blocker == old(self).blocker,
            final(self).focus_state == old(self).focus_state,
            final(self).idle_queue == old(self).idle_queue,
            final(self).wf(),
    {
        self.windows.push(win);
        proof {
            let ws = old(self).windows@.push(win);
            assert forall|i: int, j: int|
                0 <= i < j < ws.len() implies ws[i].id != ws[j].id && ws[i].surface
                != ws[j].surface by {
                if j == ws.len() - 1 {
                    assert(old(self).windows@[i].id != win.id);
                }
            }
        }
    }

    /// The commit path's gate: a commit arrived for `surface`. Returns true
    /// when the protocol layer may apply it at once, false when it was queued
    /// behind the barrier; queued commits are handed back, in submission
    /// order, by the barrier release that brings the counter to zero.
    /// Whether window `w` is visible on output `o`: it is floating, or one of
    /// its tags is currently viewed on the output.
    pub open spec fn spec_window_included(self, w: WindowId, o: OutputId) -> bool {
        ||| self.spec_window_state(w).floating is Floating
        ||| crate::tag::spec_any_tag_active(self.spec_window_state(w).tags, self.spec_focused_tags(o))
    }

    /// Whether window `w` is visible on output `o`.
    pub fn window_included(&self, w: WindowId, o: OutputId) -> (r: bool)
        ensures
            r == self.spec_window_included(w, o),
    {
        match self.get_window_state(w) {
            Some(ws) => {
                if ws.floating.is_floating() {
                    true
                } else {
                    match self.get_output_state(o) {
                        Some(os) => crate::tag::any_tag_active(&ws.tags, &os.focused_tags),
                        None => false,
                    }
                }
            },
            None => false,
        }
    }

    /// The windows of `s` (bottom to top) visible on output `o`, each paired
    /// with its current commit count.
    pub fn visible_window_serials(&self, o: OutputId) -> (r: Vec<(WindowId, u64)>)
        ensures
            r@ == spec_visible_serials_of(*self, self.space.mapped(), o),
    {
        let mapped = self.space.elements();
        let mut r: Vec<(WindowId, u64)> = Vec::new();
        let mut i: usize = 0;
        while i < mapped.len()
            invariant
                mapped@ == self.space.mapped(),
                i <= mapped@.len(),
                r@ == spec_visible_serials_of(*self, mapped@.take(i as int), o),
            decreases mapped@.len() - i,
        {
            let w = mapped[i].window.id;
            if self.window_included(w, o) {
                let count = self.toplevel(w).commit_count;
                r.push((w, count));
            }
            proof {
                assert(mapped@.take(i as int + 1).drop_last() =~= mapped@.take(i as int));
                assert(mapped@.take(i as int + 1).last() == mapped@[i as int]);
            }
            i = i + 1;
        }
        proof {
            assert(mapped@.take(mapped@.len() as int) =~= mapped@);
        }
        r
    }

    /// Whether `c` holds of the current shared state.
    pub open spec fn spec_condition_holds(self, c: Condition) -> bool {
        match c {
            Condition::AllCommitted(pairs) => forall|i: int|
                0 <= i < pairs@.len() ==> self.spec_toplevel(
                    #[trigger] pairs@[i].0,
                ).commit_count > pairs@[i].1,
        }
    }

    /// Evaluate a condition against current shared state; cheap and
    /// side-effect free.
    #[verifier::loop_isolation(false)]
    pub fn condition_holds(&self, c: &Condition) -> (r: bool)
        ensures
            r == self.spec_condition_holds(*c),
    {
        match c {
            Condition::AllCommitted(pairs) => {
                let mut i: usize = 0;
                while i < pairs.len()
                    invariant
                        i <= pairs@.len(),
                        forall|j: int|
                            0 <= j < i ==> self.spec_toplevel(
                                #[trigger] pairs@[j].0,
                            ).commit_count > pairs@[j].1,
                    decreases pairs@.len() - i,
                {
                    let (w, serial) = pairs[i];
                    if !(self.toplevel(w).commit_count > serial) {
                        proof {
                            assert(pairs@[i as int] == (w, serial));
                            assert(!(self.spec_toplevel(pairs@[i as int].0).commit_count
                                > pairs@[i as int].1));
                        }
                        return false;
                    }
                    i = i + 1;
                }
                true
            },
        }
    }

    /// Defer `run` until the first idle pass on which `condition` holds.
    /// The entry is re-queued on every pass where the condition is false;
    /// a condition that never becomes true leaves a permanently queued entry.
    pub fn schedule(&mut self, condition: Condition, run: DeferredAction)
        ensures
            final(self).idle_queue@ == old(self).idle_queue@.push(
                ScheduledWork { condition, action: run },
            ),
            final(self).space == old(self).space,
            final(self).windows == old(self).windows,
            final(self).window_states == old(self).window_states,
            final(self).toplevels == old(self).toplevels,
            final(self).output_states == old(self).output_states,
            final(self).surface_states == old(self).surface_states,
            final(self).blocker == old(self).blocker,
            final(self).focus_state == old(self).focus_state,
            old(self).wf() ==> final(self).wf(),
    {
        self.idle_queue.push(ScheduledWork { condition, action: run });
    }

    /// One idle pass of the reactor: each queued entry whose condition holds
    /// runs exactly once, in queue order; the others are re-queued in order.
    /// Conditions are evaluated against the state as of this pass (deferred
    /// raises do not change what conditions read).
    pub fn run_idle(&mut self)
        requires
            old(self).wf(),
        ensures
            ({
                let r = spec_run_idle(
                    *old(self),
                    IdleRun {
                        mapped: old(self).space.mapped(),
                        active: old(self).space.active(),
                        kept: Seq::empty(),
                    },
                    old(self).idle_queue@,
                );
                &&& final(self).space.mapped() == r.mapped
                &&& final(self).space.active() == r.active
                &&& final(self).idle_queue@ == r.kept
            }),
            final(self).space.outputs() == old(self).space.outputs(),
            final(self).windows == old(self).windows,
            final(self).window_states == old(self).window_states,
            final(self).toplevels == old(self).toplevels,
            final(self).output_states == old(self).output_states,
            final(self).surface_states == old(self).surface_states,
            final(self).blocker == old(self).blocker,
            final(self).focus_state == old(self).focus_state,
            final(self).wf(),
    {
        let mut queue: Vec<ScheduledWork> = Vec::new();
        std::mem::swap(&mut queue, &mut self.idle_queue);
        while queue.len() > 0
            invariant
                self.wf(),
                self.space.outputs() == old(self).space.outputs(),
                self.windows == old(self).windows,
                self.window_states == old(self).window_states,
                self.toplevels == old(self).toplevels,
                self.output_states == old(self).output_states,
                self.surface_states == old(self).surface_states,
                self.blocker == old(self).blocker,
                self.focus_state == old(self).focus_state,
                spec_run_idle(
                    *old(self),
                    IdleRun {
                        mapped: old(self).space.mapped(),
                        active: old(self).space.active(),
                        kept: Seq::empty(),
                    },
                    old(self).idle_queue@,
                ) == spec_run_idle(
                    *old(self),
                    IdleRun {
                        mapped: self.space.mapped(),
                        active: self.space.active(),
                        kept: self.idle_queue@,
                    },
                    queue@,
                ),
            decreases queue@.len(),
        {
            let ghost q_prev = queue@;
            let ghost m_prev = IdleRun {
                mapped: self.space.mapped(),
                active: self.space.active(),
                kept: self.idle_queue@,
            };
            let item = queue.remove(0);
            proof {
                assert(queue@ =~= q_prev.drop_first());
            }
            let fire = self.condition_holds(&item.condition);
            proof {
                lemma_condition_eval_stable(*self, *old(self), item.condition);
            }
            if fire {
                match item.action {
                    DeferredAction::Raise(win) => {
                        let ghost mapped_prev = self.space.mapped();
                        self.space.raise_element(win.id, true);
                        proof {
                            lemma_disjoint_after_permutation(
                                mapped_prev,
                                self.space.mapped(),
                                self.windows@,
                            );
                        }
                    },
                }
            } else {
                self.idle_queue.push(item);
            }
            proof {
                assert(spec_run_idle(*old(self), m_prev, q_prev) == spec_run_idle(
                    *old(self),
                    IdleRun {
                        mapped: self.space.mapped(),
                        active: self.space.active(),
                        kept: self.idle_queue@,
                    },
                    queue@,
                ));
            }
        }
    }

    pub fn handle_commit(&mut self, surface: SurfaceId) -> (apply_now: bool)
        ensures
            apply_now == (old(self).blocker.counter() == 0),
            final(self).blocker.counter() == old(self).blocker.counter(),
            apply_now ==> final(self).blocker.queued() == old(self).blocker.queued(),
            !apply_now ==> final(self).blocker.queued() == old(self).blocker.queued().push(surface),
            old(self).blocker.wf() ==> final(self).blocker.wf(),
            final(self).space == old(self).space,
            final(self).windows == old(self).windows,
            final(self).window_states == old(self).window_states,
            final(self).toplevels == old(self).toplevels,
            final(self).output_states == old(self).output_states,
            final(self).surface_states == old(self).surface_states,
            final(self).focus_state == old(self).focus_state,
            final(self).idle_queue == old(self).idle_queue,
            old(self).wf() ==> final(self).wf(),
    {
        self.blocker.submit(surface)
    }
}

} // verus!
