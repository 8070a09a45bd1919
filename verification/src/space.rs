//! The placement registry: which managed windows are mapped, where they sit,
//! their stacking order, and the geometry of each output. Index 0 of the
//! mapped list is the bottommost window, the last entry the topmost.

use vstd::prelude::*;

use crate::geometry::{Point, Rect};
use crate::output::OutputId;
use crate::window::{Window, WindowId};

verus! {

/// A mapped window together with its location.
#[derive(Clone, Copy, PartialEq, Eq, Structural, Debug)]
pub struct MappedWindow {
    pub window: Window,
    pub loc: Point,
}

/// The shared placement registry.
pub struct Space {
    mapped: Vec<MappedWindow>,
    outputs: Vec<(OutputId, Rect)>,
    active: Option<WindowId>,
}

/// Whether some mapped entry carries window id `w`.
pub open spec fn spec_has_window(s: Seq<MappedWindow>, w: WindowId) -> bool {
    exists|i: int| 0 <= i < s.len() && s[i].window.id == w
}

/// Index of the mapped entry carrying window id `w` (unique when the space is
/// well formed).
pub open spec fn spec_window_index(s: Seq<MappedWindow>, w: WindowId) -> int {
    choose|i: int| 0 <= i < s.len() && s[i].window.id == w
}

/// The location of window `w`, if mapped.
pub open spec fn spec_element_location(s: Seq<MappedWindow>, w: WindowId) -> Option<Point> {
    if spec_has_window(s, w) {
        Some(s[spec_window_index(s, w)].loc)
    } else {
        None
    }
}

/// Whether some mapped entry carries surface `s2`.
pub open spec fn spec_has_surface(s: Seq<MappedWindow>, s2: crate::window::SurfaceId) -> bool {
    exists|i: int| 0 <= i < s.len() && s[i].window.surface == s2
}

/// Index of the mapped entry carrying surface `s2` (unique when the space is
/// well formed).
pub open spec fn spec_surface_index(s: Seq<MappedWindow>, s2: crate::window::SurfaceId) -> int {
    choose|i: int| 0 <= i < s.len() && s[i].window.surface == s2
}

/// A window handle is consistent with the registry when any entry carrying
/// its id carries the whole handle.
pub open spec fn spec_window_consistent(s: Seq<MappedWindow>, w: Window) -> bool {
    forall|i: int| 0 <= i < s.len() && s[i].window.id == w.id ==> s[i].window == w
}

/// Whether some output entry carries output id `o`.
pub open spec fn spec_has_output(s: Seq<(OutputId, Rect)>, o: OutputId) -> bool {
    exists|i: int| 0 <= i < s.len() && s[i].0 == o
}

/// Index of the output entry carrying id `o`.
pub open spec fn spec_output_index(s: Seq<(OutputId, Rect)>, o: OutputId) -> int {
    choose|i: int| 0 <= i < s.len() && s[i].0 == o
}

/// The viewport geometry of output `o`, if mapped.
pub open spec fn spec_output_geometry(s: Seq<(OutputId, Rect)>, o: OutputId) -> Option<Rect> {
    if spec_has_output(s, o) {
        Some(s[spec_output_index(s, o)].1)
    } else {
        None
    }
}

impl Space {
    /// Mapped windows, bottom to top.
    pub closed spec fn mapped(self) -> Seq<MappedWindow> {
        self.mapped@
    }

    /// Outputs with their viewport geometry.
    pub closed spec fn outputs(self) -> Seq<(OutputId, Rect)> {
        self.outputs@
    }

    /// The window last activated through mapping or raising.
    pub closed spec fn active(self) -> Option<WindowId> {
        self.active
    }

    /// Every window, every surface and every output is mapped at most once.
    pub open spec fn wf(self) -> bool {
        &&& forall|i: int, j: int|
            0 <= i < j < self.mapped().len() ==> self.mapped()[i].window.id
                != self.mapped()[j].window.id
        &&& forall|i: int, j: int|
            0 <= i < j < self.mapped().len() ==> self.mapped()[i].window.surface
                != self.mapped()[j].window.surface
        &&& forall|i: int, j: int|
            0 <= i < j < self.outputs().len() ==> self.outputs()[i].0 != self.outputs()[j].0
    }

    pub fn new() -> (r: Space)
        ensures
            r.mapped() == Seq::<MappedWindow>::empty(),
            r.outputs() == Seq::<(OutputId, Rect)>::empty(),
            r.active() is None,
            r.wf(),
    {
        Space { mapped: Vec::new(), outputs: Vec::new(), active: None }
    }

    /// The mapped windows, bottom to top.
    pub fn elements(&self) -> (r: &Vec<MappedWindow>)
        ensures
            r@ == self.mapped(),
    {
        &self.mapped
    }

    /// Index of the entry for `w`, if any.
    fn find_window(&self, w: WindowId) -> (r: Option<usize>)
        requires
            self.wf(),
        ensures
            match r {
                Some(i) => i < self.mapped().len() && self.mapped()[i as int].window.id == w
                    && i == spec_window_index(self.mapped(), w),
                None => !spec_has_window(self.mapped(), w),
            },
    {
        let mut i: usize = 0;
        while i < self.mapped.len()
            invariant
                self.wf(),
                i <= self.mapped().len(),
                forall|j: int| 0 <= j < i ==> self.mapped()[j].window.id != w,
            decreases self.mapped().len() - i,
        {
            if self.mapped[i].window.id == w {
                proof {
                    let k = spec_window_index(self.mapped(), w);
                    assert(0 <= k < self.mapped().len() && self.mapped()[k].window.id == w);
                }
                return Some(i);
            }
            i = i + 1;
        }
        None
    }

    /// The location of window `w` in the registry, if it is mapped.
    pub fn element_location(&self, w: WindowId) -> (r: Option<Point>)
        requires
            self.wf(),
        ensures
            r == spec_element_location(self.mapped(), w),
    {
        match self.find_window(w) {
            Some(i) => Some(self.mapped[i].loc),
            None => None,
        }
    }

    /// Map `window` at `loc`, or move it there if already mapped (keeping its
    /// stacking position); a newly mapped window enters at the top. Activates
    /// the window only when `activate` is set.
    pub fn map_element(&mut self, window: Window, loc: Point, activate: bool)
        requires
            old(self).wf(),
            spec_window_consistent(old(self).mapped(), window),
            !spec_has_window(old(self).mapped(), window.id) ==> !spec_has_surface(
                old(self).mapped(),
                window.surface,
            ),
        ensures
            final(self).wf(),
            spec_has_window(old(self).mapped(), window.id) ==> final(self).mapped() == old(
                self,
            ).mapped().update(
                spec_window_index(old(self).mapped(), window.id),
                MappedWindow { window, loc },
            ),
            !spec_has_window(old(self).mapped(), window.id) ==> final(self).mapped() == old(
                self,
            ).mapped().push(MappedWindow { window, loc }),
            final(self).outputs() == old(self).outputs(),
            final(self).active() == if activate {
                Some(window.id)
            } else {
                old(self).active()
            },
    {
        let entry = MappedWindow { window, loc };
        match self.find_window(window.id) {
            Some(i) => {
                self.mapped.remove(i);
                self.mapped.insert(i, entry);
                proof {
                    let s = old(self).mapped();
                    let t = s.update(i as int, entry);
                    assert(self.mapped@ =~= t);
                    assert(s[i as int].window == window);
                    assert(forall|a: int| 0 <= a < t.len() ==> t[a].window == s[a].window);
                    assert forall|a: int, b: int|
                        0 <= a < b < t.len() implies t[a].window.id != t[b].window.id
                        && t[a].window.surface != t[b].window.surface by {
                        assert(s[a].window.id != s[b].window.id);
                        assert(s[a].window.surface != s[b].window.surface);
                    }
                }
            },
            None => {
                self.mapped.push(entry);
                proof {
                    let s = old(self).mapped();
                    let t = s.push(entry);
                    assert forall|a: int, b: int|
                        0 <= a < b < t.len() implies t[a].window.id != t[b].window.id
                        && t[a].window.surface != t[b].window.surface by {
                        if b == s.len() {
                            assert(!(0 <= a < s.len() && s[a].window.id == window.id));
                            assert(!(0 <= a < s.len() && s[a].window.surface == window.surface));
                        }
                    }
                }
            },
        }
        if activate {
            self.active = Some(window.id);
        }
        proof {
            assert forall|a: int, b: int|
                0 <= a < b < self.outputs@.len() implies self.outputs@[a].0 != self.outputs@[b].0 by {
                assert(old(self).outputs()[a].0 != old(self).outputs()[b].0);
            }
        }
    }

    /// Raise window `w` to the top of the stacking order; a window that is
    /// not mapped is left alone (a stale deferred raise is harmless).
    /// Activates the window only when `activate` is set and it is mapped.
    pub fn raise_element(&mut self, w: WindowId, activate: bool)
        requires
            old(self).wf(),
        ensures
            final(self).wf(),
            spec_has_window(old(self).mapped(), w) ==> {
                let i = spec_window_index(old(self).mapped(), w);
                final(self).mapped() == old(self).mapped().remove(i).push(old(self).mapped()[i])
            },
            !spec_has_window(old(self).mapped(), w) ==> final(self).mapped() == old(self).mapped(),
            final(self).outputs() == old(self).outputs(),
            final(self).active() == if activate && spec_has_window(old(self).mapped(), w) {
                Some(w)
            } else {
                old(self).active()
            },
            final(self).mapped().len() == old(self).mapped().len(),
            forall|e: MappedWindow|
                #[trigger] final(self).mapped().contains(e) <==> old(self).mapped().contains(e),
    {
        match self.find_window(w) {
            Some(i) => {
                let entry = self.mapped.remove(i);
                self.mapped.push(entry);
                if activate {
                    self.active = Some(w);
                }
                proof {
                    let s = old(self).mapped();
                    let i_ = i as int;
                    let t = s.remove(i_).push(s[i_]);
                    assert(self.mapped@ =~= t);
                    assert forall|a: int, b: int|
                        0 <= a < b < t.len() implies t[a].window.id != t[b].window.id
                        && t[a].window.surface != t[b].window.surface by {
                        assert(forall|k: int|
                            0 <= k < s.remove(i_).len() ==> s.remove(i_)[k] == if k < i_ {
                                s[k]
                            } else {
                                s[k + 1]
                            });
                    }
                    assert forall|e: MappedWindow| t.contains(e) implies s.contains(e) by {
                        let a = choose|a: int| 0 <= a < t.len() && t[a] == e;
                        if a == t.len() - 1 {
                            assert(s[i_] == e);
                        } else if a < i_ {
                            assert(s[a] == e);
                        } else {
                            assert(s[a + 1] == e);
                        }
                    }
                    assert forall|e: MappedWindow| s.contains(e) implies t.contains(e) by {
                        let b = choose|b: int| 0 <= b < s.len() && s[b] == e;
                        if b == i_ {
                            assert(t[t.len() - 1] == e);
                        } else if b < i_ {
                            assert(t[b] == e);
                        } else {
                            assert(t[b - 1] == e);
                        }
                    }
                }
            },
            None => {},
        }
        proof {
            assert forall|a: int, b: int|
                0 <= a < b < self.outputs@.len() implies self.outputs@[a].0 != self.outputs@[b].0 by {
                assert(old(self).outputs()[a].0 != old(self).outputs()[b].0);
            }
        }
    }

    /// Index of the entry for output `o`, if any.
    fn find_output(&self, o: OutputId) -> (r: Option<usize>)
        requires
            self.wf(),
        ensures
            match r {
                Some(i) => i < self.outputs().len() && self.outputs()[i as int].0 == o && i
                    == spec_output_index(self.outputs(), o),
                None => !spec_has_output(self.outputs(), o),
            },
    {
        let mut i: usize = 0;
        while i < self.outputs.len()
            invariant
                self.wf(),
                i <= self.outputs().len(),
                forall|j: int| 0 <= j < i ==> self.outputs()[j].0 != o,
            decreases self.outputs().len() - i,
        {
            if self.outputs[i].0 == o {
                proof {
                    let k = spec_output_index(self.outputs(), o);
                    assert(0 <= k < self.outputs().len() && self.outputs()[k].0 == o);
                }
                return Some(i);
            }
            i = i + 1;
        }
        None
    }

    /// The viewport geometry of output `o`, if it is mapped.
    pub fn output_geometry(&self, o: OutputId) -> (r: Option<Rect>)
        requires
            self.wf(),
        ensures
            r == spec_output_geometry(self.outputs(), o),
    {
        match self.find_output(o) {
            Some(i) => Some(self.outputs[i].1),
            None => None,
        }
    }

    /// Map output `o` with viewport geometry `geo`, replacing an earlier
    /// geometry if the output was already mapped.
    pub fn map_output(&mut self, o: OutputId, geo: Rect)
        requires
            old(self).wf(),
        ensures
            final(self).wf(),
            spec_output_geometry(final(self).outputs(), o) == Some(geo),
            final(self).mapped() == old(self).mapped(),
            final(self).active() == old(self).active(),
            forall|o2: OutputId|
                o2 != o ==> spec_output_geometry(final(self).outputs(), o2)
                    == spec_output_geometry(old(self).outputs(), o2),
    {
        match self.find_output(o) {
            Some(i) => {
                self.outputs.remove(i);
                self.outputs.insert(i, (o, geo));
                proof {
                    assert(final(self).outputs() =~= old(self).outputs().update(i as int, (o, geo)));
                    lemma_output_update(old(self).outputs(), i as int, o, geo);
                }
            },
            None => {
                self.outputs.push((o, geo));
                proof {
                    lemma_output_push(old(self).outputs(), o, geo);
                }
            },
        }
        proof {
            assert forall|a: int, b: int|
                0 <= a < b < self.mapped@.len() implies self.mapped@[a].window.id
                != self.mapped@[b].window.id by {
                assert(old(self).mapped()[a].window.id != old(self).mapped()[b].window.id);
            }
        }
    }
}

/// Updating the entry at the index of `o` keeps every other output's geometry
/// and gives `o` geometry `geo`.
proof fn lemma_output_update(s: Seq<(OutputId, Rect)>, i: int, o: OutputId, geo: Rect)
    requires
        forall|a: int, b: int| 0 <= a < b < s.len() ==> s[a].0 != s[b].0,
        0 <= i < s.len(),
        s[i].0 == o,
    ensures
        spec_output_geometry(s.update(i, (o, geo)), o) == Some(geo),
        forall|o2: OutputId|
            o2 != o ==> spec_output_geometry(s.update(i, (o, geo)), o2) == spec_output_geometry(
                s,
                o2,
            ),
        forall|a: int, b: int|
            0 <= a < b < s.update(i, (o, geo)).len() ==> s.update(i, (o, geo))[a].0 != s.update(
                i,
                (o, geo),
            )[b].0,
{
    let t = s.update(i, (o, geo));
    assert(t[i].0 == o);
    assert(spec_has_output(t, o));
    let k = spec_output_index(t, o);
    assert(t[k].0 == o);
    assert(k == i);
    assert forall|o2: OutputId| o2 != o implies spec_output_geometry(t, o2) == spec_output_geometry(
        s,
        o2,
    ) by {
        if spec_has_output(s, o2) {
            let j = spec_output_index(s, o2);
            assert(s[j].0 == o2);
            assert(j != i);
            assert(t[j].0 == o2);
            assert(spec_has_output(t, o2));
            let j2 = spec_output_index(t, o2);
            assert(t[j2].0 == o2);
            assert(j2 == j);
        } else {
            assert forall|a: int| 0 <= a < t.len() implies t[a].0 != o2 by {
                assert(a == i || s[a].0 == t[a].0);
            }
        }
    }
}

/// Appending a fresh output keeps every other output's geometry and gives `o`
/// geometry `geo`.
proof fn lemma_output_push(s: Seq<(OutputId, Rect)>, o: OutputId, geo: Rect)
    requires
        forall|a: int, b: int| 0 <= a < b < s.len() ==> s[a].0 != s[b].0,
        !spec_has_output(s, o),
    ensures
        spec_output_geometry(s.push((o, geo)), o) == Some(geo),
        forall|o2: OutputId|
            o2 != o ==> spec_output_geometry(s.push((o, geo)), o2) == spec_output_geometry(s, o2),
        forall|a: int, b: int|
            0 <= a < b < s.push((o, geo)).len() ==> s.push((o, geo))[a].0 != s.push((o, geo))[b].0,
{
    let t = s.push((o, geo));
    assert(t[s.len() as int].0 == o);
    assert(spec_has_output(t, o));
    let k = spec_output_index(t, o);
    assert(t[k].0 == o);
    assert forall|a: int| 0 <= a < s.len() implies s[a].0 != o by {
        assert(!(0 <= a < s.len() && s[a].0 == o));
    }
    assert(k == s.len());
    assert forall|o2: OutputId| o2 != o implies spec_output_geometry(t, o2) == spec_output_geometry(
        s,
        o2,
    ) by {
        if spec_has_output(s, o2) {
            let j = spec_output_index(s, o2);
            assert(t[j].0 == o2);
            assert(spec_has_output(t, o2));
            let j2 = spec_output_index(t, o2);
            assert(t[j2].0 == o2);
            assert(j2 == j);
        } else {
            assert forall|a: int| 0 <= a < t.len() implies t[a].0 != o2 by {
                if a < s.len() {
                    assert(!(0 <= a < s.len() && s[a].0 == o2));
                }
            }
        }
    }
}

} // verus!
