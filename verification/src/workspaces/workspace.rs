//! One workspace: its ordered windows and the window that has taken it over
//! in fullscreen.

use vstd::prelude::*;
use crate::geometry::{Point, Rect};
use crate::search::{
    first_where, is_first_where, is_last_where, last_where, lemma_first_where,
    lemma_first_where_found, lemma_first_where_none, lemma_last_where_found,
    lemma_last_where_none, none_where, views,
};
use crate::window::{FhtWindow, WindowView};

verus! {

/// The mathematical content of a [`FullscreenSurface`].
pub struct FullscreenView {
    pub inner: WindowView,
    pub last_known_idx: usize,
}

/// A window that has left the tiled sequence to cover its workspace, with
/// the index it left from.
#[derive(Debug)]
pub struct FullscreenSurface {
    pub(crate) inner: FhtWindow,
    pub(crate) last_known_idx: usize,
}

impl View for FullscreenSurface {
    type V = FullscreenView;

    open(crate) spec fn view(&self) -> FullscreenView {
        FullscreenView { inner: self.inner@, last_known_idx: self.last_known_idx }
    }
}

impl FullscreenSurface {
    /// The window in the slot.
    pub fn inner(&self) -> (w: &FhtWindow)
        ensures
            w@ == self@.inner,
    {
        &self.inner
    }

    /// The index in the sequence that the window left from.
    pub fn last_known_idx(&self) -> (i: usize)
        ensures
            i == self@.last_known_idx,
    {
        self.last_known_idx
    }
}

/// The views of an optional fullscreen slot.
pub open spec fn slot_view(slot: Option<FullscreenSurface>) -> Option<FullscreenView> {
    match slot {
        Some(f) => Some(f@),
        None => None,
    }
}

/// The mathematical content of a [`Workspace`].
#[verifier::ext_equal]
pub struct WorkspaceView {
    pub windows: Seq<WindowView>,
    pub fullscreen: Option<FullscreenView>,
}

impl WorkspaceView {
    /// The workspace with no window.
    pub open spec fn empty() -> WorkspaceView {
        WorkspaceView { windows: Seq::empty(), fullscreen: None }
    }

    /// Some window of the tiled sequence has the identity `id`.
    pub open spec fn in_sequence(self, id: u64) -> bool {
        exists|k: int| 0 <= k < self.windows.len() && (#[trigger] self.windows[k]).id == id
    }

    /// The window in the fullscreen slot has the identity `id`.
    pub open spec fn in_slot(self, id: u64) -> bool {
        self.fullscreen matches Some(f) && f.inner.id == id
    }

    /// The workspace holds the window `id`, in its sequence or in its slot.
    pub open spec fn holds(self, id: u64) -> bool {
        self.in_sequence(id) || self.in_slot(id)
    }

    /// Every window is well formed, no two windows share an identity, and
    /// the window in the fullscreen slot is not in the sequence.
    pub open spec fn wf(self) -> bool {
        &&& forall|k: int| 0 <= k < self.windows.len() ==> (#[trigger] self.windows[k]).wf()
        &&& forall|a: int, b: int|
            0 <= a < b < self.windows.len() ==> (#[trigger] self.windows[a]).id != (
            #[trigger] self.windows[b]).id
        &&& self.fullscreen matches Some(f) ==> f.inner.wf() && !self.in_sequence(f.inner.id)
    }

    /// The index at which the fullscreen window re-enters the sequence: the
    /// index it left from, or the end of the sequence where that is shorter.
    pub open spec fn restore_index(self) -> int {
        match self.fullscreen {
            Some(f) => if f.last_known_idx <= self.windows.len() {
                f.last_known_idx as int
            } else {
                self.windows.len() as int
            },
            None => 0,
        }
    }

    /// The workspace after its fullscreen window, if it has one, has
    /// re-entered the sequence.
    pub open spec fn with_fullscreen_restored(self) -> WorkspaceView {
        match self.fullscreen {
            Some(f) => WorkspaceView {
                windows: self.windows.insert(self.restore_index(), f.inner),
                fullscreen: None,
            },
            None => self,
        }
    }

    /// The workspace with `window` appended to its sequence.
    pub open spec fn with_window(self, window: WindowView) -> WorkspaceView {
        WorkspaceView { windows: self.windows.push(window), ..self }
    }

    /// The workspace a newly mapped window ends up in: the fullscreen window
    /// re-enters the sequence first, then the new window is appended.
    pub open spec fn with_mapped(self, window: WindowView) -> WorkspaceView {
        self.with_fullscreen_restored().with_window(window)
    }

    /// The index in the sequence of the window `id`.
    pub open spec fn index_of(self, id: u64) -> Option<int> {
        first_where(self.windows, |w: WindowView| w.id == id)
    }

    /// The workspace after the window `id` of its sequence has taken the
    /// fullscreen slot. A window already in the slot re-enters the sequence
    /// first. Where the sequence then has no window `id`, nothing else
    /// changes.
    pub open spec fn with_fullscreened(self, id: u64) -> WorkspaceView {
        let restored = self.with_fullscreen_restored();
        match restored.index_of(id) {
            Some(i) => WorkspaceView {
                windows: restored.windows.remove(i),
                fullscreen: Some(FullscreenView { inner: restored.windows[i], last_known_idx: i as usize }),
            },
            None => restored,
        }
    }

    /// The window `id` that the workspace holds.
    pub open spec fn window(self, id: u64) -> Option<WindowView> {
        match self.index_of(id) {
            Some(k) => Some(self.windows[k]),
            None => match self.fullscreen {
                Some(f) => if f.inner.id == id {
                    Some(f.inner)
                } else {
                    None
                },
                None => None,
            },
        }
    }

    /// The workspace with `window` in the place of the window `id`.
    pub open spec fn with_window_replaced(self, id: u64, window: WindowView) -> WorkspaceView {
        match self.index_of(id) {
            Some(k) => WorkspaceView { windows: self.windows.update(k, window), ..self },
            None => match self.fullscreen {
                Some(f) => if f.inner.id == id {
                    WorkspaceView { fullscreen: Some(FullscreenView { inner: window, ..f }), ..self }
                } else {
                    self
                },
                None => self,
            },
        }
    }

    /// The workspace without the window `id`.
    pub open spec fn without_window(self, id: u64) -> WorkspaceView {
        match self.index_of(id) {
            Some(k) => WorkspaceView { windows: self.windows.remove(k), ..self },
            None => match self.fullscreen {
                Some(f) => if f.inner.id == id {
                    WorkspaceView { fullscreen: None, ..self }
                } else {
                    self
                },
                None => self,
            },
        }
    }

    /// The index of the topmost window of the sequence under `point`; a later
    /// window of the sequence is drawn above an earlier one.
    pub open spec fn window_under(self, point: Point) -> Option<int> {
        last_where(self.windows, |w: WindowView| w.geometry.spec_contains(point))
    }

    /// The window that `surface` belongs to: the first such window of the
    /// sequence, else the fullscreen window.
    pub open spec fn find_window(self, surface: u64) -> Option<WindowView> {
        match first_where(self.windows, |w: WindowView| w.has_surface(surface)) {
            Some(i) => Some(self.windows[i]),
            None => match self.fullscreen {
                Some(f) => if f.inner.has_surface(surface) {
                    Some(f.inner)
                } else {
                    None
                },
                None => None,
            },
        }
    }

    /// Some window of the workspace has `surface`.
    pub open spec fn has_surface(self, surface: u64) -> bool {
        self.find_window(surface) is Some
    }
}

/// One virtual desktop.
#[derive(Debug)]
pub struct Workspace {
    pub(crate) windows: Vec<FhtWindow>,
    pub(crate) fullscreen: Option<FullscreenSurface>,
}

impl View for Workspace {
    type V = WorkspaceView;

    open(crate) spec fn view(&self) -> WorkspaceView {
        WorkspaceView { windows: views(self.windows@), fullscreen: slot_view(self.fullscreen) }
    }
}

/// Inserting or appending a window adds its identity to the sequence and
/// nothing else.
pub proof fn lemma_in_sequence_insert(ws: WorkspaceView, at: int, window: WindowView, id: u64)
    requires
        0 <= at <= ws.windows.len(),
    ensures
        (WorkspaceView { windows: ws.windows.insert(at, window), ..ws }).in_sequence(id) <==> (
        ws.in_sequence(id) || window.id == id),
{
    let after = WorkspaceView { windows: ws.windows.insert(at, window), ..ws };
    if ws.in_sequence(id) {
        let k = choose|k: int| 0 <= k < ws.windows.len() && (#[trigger] ws.windows[k]).id == id;
        if k < at {
            assert(after.windows[k].id == id);
        } else {
            assert(after.windows[k + 1].id == id);
        }
    }
    if window.id == id {
        assert(after.windows[at].id == id);
    }
    if after.in_sequence(id) {
        let k = choose|k: int| 0 <= k < after.windows.len() && (#[trigger] after.windows[k]).id == id;
        if k < at {
            assert(ws.windows[k].id == id);
        } else if k > at {
            assert(ws.windows[k - 1].id == id);
        }
    }
}

/// Restoring the fullscreen window keeps a workspace well formed and keeps
/// the windows it holds.
pub proof fn lemma_restore_keeps(ws: WorkspaceView)
    requires
        ws.wf(),
    ensures
        ws.with_fullscreen_restored().wf(),
        ws.with_fullscreen_restored().fullscreen is None,
        forall|id: u64| #[trigger] ws.with_fullscreen_restored().holds(id) <==> ws.holds(id),
{
    let after = ws.with_fullscreen_restored();
    match ws.fullscreen {
        Some(f) => {
            let at = ws.restore_index();
            assert forall|id: u64| #[trigger] after.holds(id) <==> ws.holds(id) by {
                lemma_in_sequence_insert(ws, at, f.inner, id);
                assert(after.windows == (WorkspaceView {
                    windows: ws.windows.insert(at, f.inner),
                    ..ws
                }).windows);
            }
            assert forall|a: int, b: int| 0 <= a < b < after.windows.len() implies (
            #[trigger] after.windows[a]).id != (#[trigger] after.windows[b]).id by {
                let a0 = if a < at { a } else { a - 1 };
                let b0 = if b < at { b } else { b - 1 };
                if a == at {
                    assert(ws.windows[b0].id != f.inner.id);
                } else if b == at {
                    assert(ws.windows[a0].id != f.inner.id);
                } else {
                    assert(ws.windows[a0].id != ws.windows[b0].id);
                }
            }
            assert forall|k: int| 0 <= k < after.windows.len() implies (
            #[trigger] after.windows[k]).wf() by {
                if k < at {
                    assert(ws.windows[k].wf());
                } else if k > at {
                    assert(ws.windows[k - 1].wf());
                }
            }
        },
        None => {},
    }
}

/// Appending a window that the workspace does not hold keeps it well formed
/// and adds that one window.
pub proof fn lemma_with_window_keeps(ws: WorkspaceView, window: WindowView)
    requires
        ws.wf(),
        window.wf(),
        !ws.holds(window.id),
    ensures
        ws.with_window(window).wf(),
        forall|id: u64| #[trigger] ws.with_window(window).holds(id) <==> (ws.holds(id) || id == window.id),
{
    let after = ws.with_window(window);
    let n = ws.windows.len() as int;
    assert(ws.windows.push(window) =~= ws.windows.insert(n, window));
    assert forall|id: u64| #[trigger] after.holds(id) <==> (ws.holds(id) || id == window.id) by {
        lemma_in_sequence_insert(ws, n, window, id);
    }
    assert forall|a: int, b: int| 0 <= a < b < after.windows.len() implies (
    #[trigger] after.windows[a]).id != (#[trigger] after.windows[b]).id by {
        if b == n {
            assert(ws.windows[a].id != window.id);
        } else {
            assert(ws.windows[a].id != ws.windows[b].id);
        }
    }
    assert forall|k: int| 0 <= k < after.windows.len() implies (#[trigger] after.windows[k]).wf() by {
        if k < n {
            assert(ws.windows[k].wf());
        }
    }
    match after.fullscreen {
        Some(f) => {
            lemma_in_sequence_insert(ws, n, window, f.inner.id);
        },
        None => {},
    }
}

/// A workspace has a window `id` exactly where it holds one, and that window
/// is well formed.
pub proof fn lemma_window_of_held(ws: WorkspaceView, id: u64)
    requires
        ws.wf(),
    ensures
        ws.holds(id) <==> ws.window(id) is Some,
        ws.window(id) matches Some(w) ==> w.id == id && w.wf(),
{
    lemma_first_where(ws.windows, |w: WindowView| w.id == id);
    match ws.index_of(id) {
        Some(k) => {
            assert(ws.windows[k].id == id);
            assert(ws.windows[k].wf());
        },
        None => {
            assert forall|a: int| 0 <= a < ws.windows.len() implies (#[trigger] ws.windows[a]).id != id by {
                let p = |w: WindowView| w.id == id;
                assert(!p(ws.windows[a]));
            }
            assert(!ws.in_sequence(id));
        },
    }
}

/// Putting a well-formed window of the same identity in the place of a
/// window keeps a workspace well formed and keeps the windows it holds.
pub proof fn lemma_window_replaced_keeps(ws: WorkspaceView, id: u64, window: WindowView)
    requires
        ws.wf(),
        window.wf(),
        window.id == id,
    ensures
        ws.with_window_replaced(id, window).wf(),
        forall|other: u64| #[trigger] ws.with_window_replaced(id, window).holds(other) <==> ws.holds(other),
{
    let after = ws.with_window_replaced(id, window);
    lemma_first_where(ws.windows, |w: WindowView| w.id == id);
    match ws.index_of(id) {
        Some(k) => {
            assert(ws.windows[k].id == id);
            assert forall|other: u64| #[trigger] after.holds(other) <==> ws.holds(other) by {
                if ws.in_sequence(other) {
                    let a = choose|a: int| 0 <= a < ws.windows.len() && (#[trigger] ws.windows[a]).id == other;
                    assert(after.windows[a].id == other);
                }
                if after.in_sequence(other) {
                    let a = choose|a: int|
                        0 <= a < after.windows.len() && (#[trigger] after.windows[a]).id == other;
                    assert(ws.windows[a].id == other);
                }
            }
            assert forall|a: int, b: int| 0 <= a < b < after.windows.len() implies (
            #[trigger] after.windows[a]).id != (#[trigger] after.windows[b]).id by {
                assert(ws.windows[a].id != ws.windows[b].id);
            }
            assert forall|a: int| 0 <= a < after.windows.len() implies (#[trigger] after.windows[a]).wf() by {
                if a != k {
                    assert(ws.windows[a].wf());
                }
            }
            match after.fullscreen {
                Some(f) => {
                    assert(after.in_sequence(f.inner.id) <==> ws.in_sequence(f.inner.id)) by {
                        assert(after.holds(f.inner.id) <==> ws.holds(f.inner.id));
                        if ws.in_sequence(f.inner.id) {
                        }
                        if after.in_sequence(f.inner.id) {
                            let a = choose|a: int|
                                0 <= a < after.windows.len() && (#[trigger] after.windows[a]).id
                                    == f.inner.id;
                            assert(ws.windows[a].id == f.inner.id);
                        }
                    }
                },
                None => {},
            }
        },
        None => {
            assert forall|a: int| 0 <= a < ws.windows.len() implies (#[trigger] ws.windows[a]).id != id by {
                let p = |w: WindowView| w.id == id;
                assert(!p(ws.windows[a]));
            }
            assert(!ws.in_sequence(id));
        },
    }
}

/// Taking a window out keeps a workspace well formed, and the workspace then
/// holds what it held but for that window.
pub proof fn lemma_without_window_keeps(ws: WorkspaceView, id: u64)
    requires
        ws.wf(),
    ensures
        ws.without_window(id).wf(),
        forall|other: u64| #[trigger] ws.without_window(id).holds(other) <==> (ws.holds(other) && other != id),
{
    let after = ws.without_window(id);
    lemma_window_of_held(ws, id);
    lemma_first_where(ws.windows, |w: WindowView| w.id == id);
    match ws.index_of(id) {
        Some(i) => {
            assert(ws.windows[i].id == id);
            assert forall|k: int| 0 <= k < after.windows.len() implies (#[trigger] after.windows[k]).wf() by {
                let k0 = if k < i { k } else { k + 1 };
                assert(ws.windows[k0].wf());
            }
            assert forall|a: int, b: int| 0 <= a < b < after.windows.len() implies (
            #[trigger] after.windows[a]).id != (#[trigger] after.windows[b]).id by {
                let a0 = if a < i { a } else { a + 1 };
                let b0 = if b < i { b } else { b + 1 };
                assert(ws.windows[a0].id != ws.windows[b0].id);
            }
            assert forall|other: u64| #[trigger] after.in_sequence(other) <==> (ws.in_sequence(other) && other
                != id) by {
                if after.in_sequence(other) {
                    let k = choose|k: int|
                        0 <= k < after.windows.len() && (#[trigger] after.windows[k]).id == other;
                    let k0 = if k < i { k } else { k + 1 };
                    assert(ws.windows[k0].id == other);
                    if k0 < i {
                        assert(ws.windows[k0].id != ws.windows[i].id);
                    } else {
                        assert(ws.windows[i].id != ws.windows[k0].id);
                    }
                }
                if ws.in_sequence(other) && other != id {
                    let k0 = choose|k: int| 0 <= k < ws.windows.len() && (#[trigger] ws.windows[k]).id == other;
                    let k = if k0 < i { k0 } else { k0 - 1 };
                    assert(after.windows[k].id == other);
                }
            }
            assert forall|other: u64| #[trigger] after.holds(other) <==> (ws.holds(other) && other != id) by {
                assert(after.in_sequence(other) <==> (ws.in_sequence(other) && other != id));
            }
            match after.fullscreen {
                Some(f) => {
                    assert(after.in_sequence(f.inner.id) <==> (ws.in_sequence(f.inner.id) && f.inner.id != id));
                },
                None => {},
            }
        },
        None => {
            assert(!ws.in_sequence(id));
        },
    }
}

/// Moving a window of the sequence into the fullscreen slot keeps a
/// workspace well formed and keeps the windows it holds.
pub proof fn lemma_fullscreened_keeps(ws: WorkspaceView, id: u64)
    requires
        ws.wf(),
    ensures
        ws.with_fullscreened(id).wf(),
        forall|other: u64| #[trigger] ws.with_fullscreened(id).holds(other) <==> ws.holds(other),
        ws.with_fullscreen_restored().index_of(id) is Some <==> ws.holds(id),
{
    lemma_restore_keeps(ws);
    let restored = ws.with_fullscreen_restored();
    let after = ws.with_fullscreened(id);
    lemma_window_of_held(restored, id);
    assert(restored.holds(id) <==> ws.holds(id));
    lemma_first_where(restored.windows, |w: WindowView| w.id == id);
    match restored.index_of(id) {
        Some(i) => {
            let taken = restored.windows[i];
            assert(taken.id == id);
            assert forall|k: int| 0 <= k < after.windows.len() implies (#[trigger] after.windows[k]).wf() by {
                let k0 = if k < i { k } else { k + 1 };
                assert(restored.windows[k0].wf());
            }
            assert forall|a: int, b: int| 0 <= a < b < after.windows.len() implies (
            #[trigger] after.windows[a]).id != (#[trigger] after.windows[b]).id by {
                let a0 = if a < i { a } else { a + 1 };
                let b0 = if b < i { b } else { b + 1 };
                assert(restored.windows[a0].id != restored.windows[b0].id);
            }
            assert(!after.in_sequence(id)) by {
                if after.in_sequence(id) {
                    let k = choose|k: int| 0 <= k < after.windows.len() && (#[trigger] after.windows[k]).id == id;
                    let k0 = if k < i { k } else { k + 1 };
                    assert(restored.windows[k0].id == id);
                    if k0 < i {
                        assert(restored.windows[k0].id != restored.windows[i].id);
                    } else {
                        assert(restored.windows[i].id != restored.windows[k0].id);
                    }
                }
            }
            assert(taken.wf());
            assert forall|other: u64| #[trigger] after.holds(other) <==> ws.holds(other) by {
                assert(restored.holds(other) <==> ws.holds(other));
                if after.in_sequence(other) {
                    let k = choose|k: int|
                        0 <= k < after.windows.len() && (#[trigger] after.windows[k]).id == other;
                    let k0 = if k < i { k } else { k + 1 };
                    assert(restored.windows[k0].id == other);
                }
                if restored.in_sequence(other) && other != id {
                    let k0 = choose|k: int|
                        0 <= k < restored.windows.len() && (#[trigger] restored.windows[k]).id == other;
                    let k = if k0 < i { k0 } else { k0 - 1 };
                    assert(after.windows[k].id == other);
                }
            }
        },
        None => {},
    }
}

/// A window that takes the fullscreen slot of a workspace and is restored
/// when the next window is mapped comes back to the index it left from: the
/// workspace ends as if the new window had been appended to it.
pub proof fn lemma_fullscreen_round_trip(ws: WorkspaceView, id: u64, window: WindowView)
    requires
        ws.wf(),
        ws.windows.len() <= usize::MAX,
        ws.fullscreen is None,
        ws.in_sequence(id),
    ensures
        ws.with_fullscreened(id).fullscreen is Some,
        ws.with_fullscreened(id).with_mapped(window) == ws.with_window(window),
{
    lemma_first_where(ws.windows, |w: WindowView| w.id == id);
    lemma_window_of_held(ws, id);
    let i = ws.index_of(id).unwrap();
    let slotted = ws.with_fullscreened(id);
    assert(slotted.restore_index() == i);
    assert(slotted.with_fullscreen_restored().windows =~= ws.windows);
}

/// A window in the fullscreen slot re-enters the sequence, when the next
/// window is mapped, at the index it left from or at the end of the sequence
/// where that has become shorter; the new window comes after it, last.
pub proof fn lemma_mapping_restores_fullscreen(ws: WorkspaceView, window: WindowView)
    requires
        ws.fullscreen is Some,
    ensures
        ({
            let slot = ws.fullscreen.unwrap();
            let at = if slot.last_known_idx <= ws.windows.len() {
                slot.last_known_idx as int
            } else {
                ws.windows.len() as int
            };
            let after = ws.with_mapped(window);
            &&& after.fullscreen is None
            &&& after.windows.len() == ws.windows.len() + 2
            &&& after.windows[at] == slot.inner
            &&& after.windows.last() == window
            &&& after.windows == ws.windows.insert(at, slot.inner).push(window)
        }),
{
}

/// Mapping a window that the workspace does not hold keeps it well formed,
/// empties the fullscreen slot and adds that one window.
pub proof fn lemma_with_mapped_keeps(ws: WorkspaceView, window: WindowView)
    requires
        ws.wf(),
        window.wf(),
        !ws.holds(window.id),
    ensures
        ws.with_mapped(window).wf(),
        ws.with_mapped(window).fullscreen is None,
        forall|id: u64| #[trigger] ws.with_mapped(window).holds(id) <==> (ws.holds(id) || id == window.id),
{
    lemma_restore_keeps(ws);
    let restored = ws.with_fullscreen_restored();
    assert(restored.holds(window.id) <==> ws.holds(window.id));
    lemma_with_window_keeps(restored, window);
    assert forall|id: u64| #[trigger] ws.with_mapped(window).holds(id) <==> (ws.holds(id) || id
        == window.id) by {
        assert(restored.with_window(window).holds(id) <==> (restored.holds(id) || id == window.id));
        assert(restored.holds(id) <==> ws.holds(id));
    }
}

impl Workspace {
    /// A workspace with no window.
    pub fn new() -> (ws: Workspace)
        ensures
            ws@ == WorkspaceView::empty(),
            ws@.wf(),
    {
        let ws = Workspace { windows: Vec::new(), fullscreen: None };
        assert(ws@.windows =~= Seq::<WindowView>::empty());
        ws
    }

    /// The tiled sequence of windows.
    pub fn windows(&self) -> (w: &Vec<FhtWindow>)
        ensures
            views(w@) == self@.windows,
    {
        &self.windows
    }

    /// The fullscreen slot.
    pub fn fullscreen(&self) -> (f: Option<&FullscreenSurface>)
        ensures
            match f {
                Some(s) => self@.fullscreen == Some(s@),
                None => self@.fullscreen is None,
            },
    {
        self.fullscreen.as_ref()
    }

    /// Whether the workspace holds the window `id`.
    pub fn has_window(&self, id: u64) -> (b: bool)
        ensures
            b == self@.holds(id),
    {
        let mut i: usize = 0;
        while i < self.windows.len()
            invariant
                i <= self.windows.len(),
                forall|k: int| 0 <= k < i ==> (#[trigger] self@.windows[k]).id != id,
            decreases self.windows.len() - i,
        {
            assert(self@.windows[i as int] == self.windows[i as int]@);
            if self.windows[i].id == id {
                return true;
            }
            i += 1;
        }
        match &self.fullscreen {
            Some(f) => f.inner.id == id,
            None => false,
        }
    }

    /// The index in the sequence of the window `id`.
    pub fn index_of(&self, id: u64) -> (r: Option<usize>)
        ensures
            match r {
                Some(i) => self@.index_of(id) == Some(i as int) && i < self@.windows.len(),
                None => self@.index_of(id) is None && !self@.in_sequence(id),
            },
    {
        let ghost p = |w: WindowView| w.id == id;
        let mut i: usize = 0;
        while i < self.windows.len()
            invariant
                i <= self.windows.len(),
                p == (|w: WindowView| w.id == id),
                forall|k: int| 0 <= k < i ==> !p(#[trigger] self@.windows[k]),
            decreases self.windows.len() - i,
        {
            assert(self@.windows[i as int] == self.windows[i as int]@);
            if self.windows[i].id == id {
                proof {
                    assert(is_first_where(self@.windows, p, i as int));
                    lemma_first_where_found(self@.windows, p, i as int);
                }
                return Some(i);
            }
            i += 1;
        }
        proof {
            assert(none_where(self@.windows, p));
            lemma_first_where_none(self@.windows, p);
            assert forall|k: int| 0 <= k < self@.windows.len() implies (#[trigger] self@.windows[k]).id
                != id by {
                assert(!p(self@.windows[k]));
            }
        }
        None
    }

    /// The index of the topmost window of the sequence under `point`.
    pub fn window_under(&self, point: Point) -> (r: Option<usize>)
        ensures
            match r {
                Some(i) => self@.window_under(point) == Some(i as int) && i < self@.windows.len(),
                None => self@.window_under(point) is None,
            },
    {
        let ghost p = |w: WindowView| w.geometry.spec_contains(point);
        let mut i: usize = self.windows.len();
        while i > 0
            invariant
                i <= self.windows.len(),
                p == (|w: WindowView| w.geometry.spec_contains(point)),
                forall|k: int| i <= k < self.windows.len() ==> !p(#[trigger] self@.windows[k]),
            decreases i,
        {
            i -= 1;
            assert(self@.windows[i as int] == self.windows[i as int]@);
            if self.windows[i].geometry.contains(point) {
                proof {
                    assert(is_last_where(self@.windows, p, i as int));
                    lemma_last_where_found(self@.windows, p, i as int);
                }
                return Some(i);
            }
        }
        proof {
            assert(none_where(self@.windows, p));
            lemma_last_where_none(self@.windows, p);
        }
        None
    }

    /// The window that `surface` belongs to.
    pub fn find_window(&self, surface: u64) -> (r: Option<&FhtWindow>)
        ensures
            match r {
                Some(w) => self@.find_window(surface) == Some(w@),
                None => self@.find_window(surface) is None,
            },
    {
        let ghost p = |w: WindowView| w.has_surface(surface);
        let mut i: usize = 0;
        while i < self.windows.len()
            invariant
                i <= self.windows.len(),
                p == (|w: WindowView| w.has_surface(surface)),
                forall|k: int| 0 <= k < i ==> !p(#[trigger] self@.windows[k]),
            decreases self.windows.len() - i,
        {
            assert(self@.windows[i as int] == self.windows[i as int]@);
            if self.windows[i].has_surface(surface) {
                proof {
                    assert(is_first_where(self@.windows, p, i as int));
                    lemma_first_where_found(self@.windows, p, i as int);
                }
                return Some(&self.windows[i]);
            }
            i += 1;
        }
        proof {
            assert(none_where(self@.windows, p));
            lemma_first_where_none(self@.windows, p);
        }
        match &self.fullscreen {
            Some(f) => {
                if f.inner.has_surface(surface) {
                    Some(&f.inner)
                } else {
                    None
                }
            },
            None => None,
        }
    }

    /// The window `id` that the workspace holds.
    pub fn window(&self, id: u64) -> (r: Option<&FhtWindow>)
        ensures
            match r {
                Some(w) => self@.window(id) == Some(w@),
                None => self@.window(id) is None,
            },
    {
        match self.index_of(id) {
            Some(k) => {
                assert(self@.windows[k as int] == self.windows[k as int]@);
                Some(&self.windows[k])
            },
            None => match &self.fullscreen {
                Some(f) => if f.inner.id == id {
                    Some(&f.inner)
                } else {
                    None
                },
                None => None,
            },
        }
    }

    /// Clears the maximized and the fullscreen state of the window `id`.
    pub(crate) fn release_window(&mut self, id: u64)
        requires
            old(self)@.wf(),
            old(self)@.holds(id),
        ensures
            final(self)@ == old(self)@.with_window_replaced(
                id,
                old(self)@.window(id).unwrap().with_maximized(false).with_fullscreen(false, None),
            ),
            final(self)@.wf(),
    {
        proof {
            lemma_window_of_held(self@, id);
            lemma_window_replaced_keeps(
                self@,
                id,
                self@.window(id).unwrap().with_maximized(false).with_fullscreen(false, None),
            );
        }
        match self.index_of(id) {
            Some(k) => {
                assert(self@.windows[k as int] == self.windows[k as int]@);
                self.windows[k].set_maximized(false);
                self.windows[k].set_fullscreen(false, None);
                assert(self@.windows =~= old(self)@.windows.update(k as int, self.windows[k as int]@));
            },
            None => {
                match &mut self.fullscreen {
                    Some(f) => {
                        f.inner.set_maximized(false);
                        f.inner.set_fullscreen(false, None);
                    },
                    None => {},
                }
                assert(self@.windows =~= old(self)@.windows);
            },
        }
    }

    /// Gives the window `id` another geometry.
    pub(crate) fn set_window_geometry(&mut self, id: u64, geometry: Rect)
        requires
            old(self)@.wf(),
            old(self)@.holds(id),
            geometry.wf(),
        ensures
            final(self)@ == old(self)@.with_window_replaced(
                id,
                old(self)@.window(id).unwrap().with_geometry(geometry),
            ),
            final(self)@.wf(),
    {
        proof {
            lemma_window_of_held(self@, id);
            lemma_window_replaced_keeps(self@, id, self@.window(id).unwrap().with_geometry(geometry));
        }
        match self.index_of(id) {
            Some(k) => {
                assert(self@.windows[k as int] == self.windows[k as int]@);
                self.windows[k].geometry = geometry;
                assert(self@.windows =~= old(self)@.windows.update(k as int, self.windows[k as int]@));
            },
            None => {
                match &mut self.fullscreen {
                    Some(f) => {
                        f.inner.geometry = geometry;
                    },
                    None => {},
                }
                assert(self@.windows =~= old(self)@.windows);
            },
        }
    }

    /// Takes the window `id` out of the workspace, from its sequence or from
    /// its fullscreen slot.
    pub fn remove_window(&mut self, id: u64) -> (r: Option<FhtWindow>)
        requires
            old(self)@.wf(),
        ensures
            match r {
                Some(w) => old(self)@.window(id) == Some(w@),
                None => old(self)@.window(id) is None,
            },
            final(self)@ == old(self)@.without_window(id),
            final(self)@.wf(),
            forall|other: u64| #[trigger] final(self)@.holds(other) <==> (old(self)@.holds(other) && other != id),
    {
        proof {
            lemma_without_window_keeps(self@, id);
        }
        match self.index_of(id) {
            Some(k) => {
                assert(self@.windows[k as int] == self.windows[k as int]@);
                let window = self.windows.remove(k);
                assert(self@.windows =~= old(self)@.windows.remove(k as int));
                Some(window)
            },
            None => {
                let held = match &self.fullscreen {
                    Some(f) => f.inner.id == id,
                    None => false,
                };
                assert(self@.windows =~= old(self)@.windows);
                if held {
                    match self.fullscreen.take() {
                        Some(slot) => {
                            let FullscreenSurface { inner, last_known_idx: _ } = slot;
                            assert(self@.windows =~= old(self)@.windows);
                            Some(inner)
                        },
                        None => None,
                    }
                } else {
                    None
                }
            },
        }
    }

    /// Appends `window` to the sequence.
    pub(crate) fn insert_window(&mut self, window: FhtWindow)
        requires
            old(self)@.wf(),
            window@.wf(),
            !old(self)@.holds(window@.id),
        ensures
            final(self)@ == old(self)@.with_window(window@),
            final(self)@.wf(),
    {
        proof {
            lemma_with_window_keeps(self@, window@);
        }
        self.windows.push(window);
        assert(self@.windows =~= old(self)@.windows.push(window@));
    }

    /// Puts the fullscreen window, if there is one, back into the sequence
    /// at the index it left from, or at the end where the sequence has
    /// become shorter than that.
    pub fn restore_fullscreen(&mut self)
        requires
            old(self)@.wf(),
        ensures
            final(self)@ == old(self)@.with_fullscreen_restored(),
            final(self)@.wf(),
    {
        proof {
            lemma_restore_keeps(self@);
        }
        match self.fullscreen.take() {
            Some(slot) => {
                let FullscreenSurface { inner, last_known_idx } = slot;
                let at = if last_known_idx <= self.windows.len() {
                    last_known_idx
                } else {
                    self.windows.len()
                };
                self.windows.insert(at, inner);
                assert(self@.windows =~= old(self)@.windows.insert(at as int, inner@));
            },
            None => {
                assert(self@.windows =~= old(self)@.windows);
            },
        }
    }

    /// Moves the window `id` of the sequence into the fullscreen slot, and
    /// says whether the workspace holds such a window.
    ///
    /// A window that is in the slot already re-enters the sequence first.
    /// The window's own state is not touched.
    pub fn fullscreen_window(&mut self, id: u64) -> (held: bool)
        requires
            old(self)@.wf(),
        ensures
            held == old(self)@.holds(id),
            final(self)@ == old(self)@.with_fullscreened(id),
            final(self)@.wf(),
            forall|other: u64| #[trigger] final(self)@.holds(other) <==> old(self)@.holds(other),
    {
        proof {
            lemma_fullscreened_keeps(self@, id);
        }
        self.restore_fullscreen();
        match self.index_of(id) {
            Some(i) => {
                let ghost restored = self@;
                let inner = self.windows.remove(i);
                self.fullscreen = Some(FullscreenSurface { inner, last_known_idx: i });
                assert(self@.windows =~= restored.windows.remove(i as int));
                true
            },
            None => false,
        }
    }

    /// Restores the fullscreen window, then appends `window`.
    pub(crate) fn map_window(&mut self, window: FhtWindow)
        requires
            old(self)@.wf(),
            window@.wf(),
            !old(self)@.holds(window@.id),
        ensures
            final(self)@ == old(self)@.with_mapped(window@),
            final(self)@.wf(),
    {
        proof {
            lemma_restore_keeps(self@);
        }
        self.restore_fullscreen();
        self.insert_window(window);
    }
}

} // verus!
