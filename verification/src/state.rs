//! The state of the shell: the workspaces of every output, the windows and
//! layer surfaces that wait to be mapped, the focus, and the pointer.

use vstd::prelude::*;
use crate::focus::{FocusState, FocusTarget};
use crate::geometry::{Point, Rect};
use crate::grabs::{PointerGrab, PointerState};
use crate::output::{LayerSurface, LayerSurfaceView, Output, OutputView};
use crate::rules::MapSettingsView;
use crate::search::{
    first_where, is_first_where, lemma_first_where, lemma_first_where_found, lemma_first_where_none,
    none_where, views,
};
use crate::window::{FhtWindow, WindowView};
use crate::workspaces::{
    lemma_set_with_mapped_keeps, WorkspaceSet, WorkspaceSetView, WorkspaceView, WORKSPACE_COUNT,
};

verus! {

/// The mathematical content of a [`PendingWindow`].
pub struct PendingWindowView {
    pub window: WindowView,
    pub output: u32,
}

/// A window that waits to be mapped, with the output proposed for it.
#[derive(Debug)]
pub struct PendingWindow {
    pub(crate) window: FhtWindow,
    pub(crate) output: u32,
}

impl View for PendingWindow {
    type V = PendingWindowView;

    open(crate) spec fn view(&self) -> PendingWindowView {
        PendingWindowView { window: self.window@, output: self.output }
    }
}

/// The mathematical content of a [`PendingLayer`].
pub struct PendingLayerView {
    pub layer: LayerSurfaceView,
    pub output: u32,
}

/// A layer surface that waits to be mapped, with the output it asked for.
#[derive(Debug)]
pub struct PendingLayer {
    pub(crate) layer: LayerSurface,
    pub(crate) output: u32,
}

impl View for PendingLayer {
    type V = PendingLayerView;

    open(crate) spec fn view(&self) -> PendingLayerView {
        PendingLayerView { layer: self.layer@, output: self.output }
    }
}

/// The mathematical content of a [`Fht`].
#[verifier::ext_equal]
pub struct FhtView {
    pub wsets: Seq<WorkspaceSetView>,
    pub pending_windows: Seq<PendingWindowView>,
    pub pending_layers: Seq<PendingLayerView>,
    pub focus_state: FocusState,
    pub pointer: PointerState,
    pub focus_new_windows: bool,
}

impl FhtView {
    /// The state with no output, no window and no focus.
    pub open spec fn empty(focus_new_windows: bool) -> FhtView {
        FhtView {
            wsets: Seq::empty(),
            pending_windows: Seq::empty(),
            pending_layers: Seq::empty(),
            focus_state: FocusState { output: None, focus_target: None },
            pointer: PointerState { grab: None, location: Point { x: 0, y: 0 } },
            focus_new_windows,
        }
    }

    /// The index of the workspace set of the output `id`.
    pub open spec fn output_index(self, id: u32) -> Option<int> {
        first_where(self.wsets, |s: WorkspaceSetView| s.output.id == id)
    }

    /// There is an output `id`.
    pub open spec fn has_output(self, id: u32) -> bool {
        exists|i: int| 0 <= i < self.wsets.len() && (#[trigger] self.wsets[i]).output.id == id
    }

    /// The index of the workspace set of the first output named `name`.
    pub open spec fn output_named(self, name: Seq<char>) -> Option<int> {
        first_where(self.wsets, |s: WorkspaceSetView| s.output.name == name)
    }

    /// Some workspace of some output holds the window `id`.
    pub open spec fn holds(self, id: u64) -> bool {
        exists|i: int| 0 <= i < self.wsets.len() && #[trigger] self.wsets[i].holds(id)
    }

    /// The index in the pending list of the window `id`.
    pub open spec fn pending_index(self, id: u64) -> Option<int> {
        first_where(self.pending_windows, |p: PendingWindowView| p.window.id == id)
    }

    /// The window `id` is pending.
    pub open spec fn is_pending(self, id: u64) -> bool {
        exists|p: int| 0 <= p < self.pending_windows.len() && (#[trigger] self.pending_windows[p]).window.id == id
    }

    /// Every workspace set is well formed; outputs differ in their identity;
    /// a window is held by one workspace or pending, never both and never
    /// twice; what is pending waits for an output that exists; and the
    /// focused output exists.
    pub open spec fn wf(self) -> bool {
        &&& forall|i: int| 0 <= i < self.wsets.len() ==> (#[trigger] self.wsets[i]).wf()
        &&& forall|i: int, j: int|
            0 <= i < j < self.wsets.len() ==> (#[trigger] self.wsets[i]).output.id != (
            #[trigger] self.wsets[j]).output.id
        &&& forall|i: int, j: int, id: u64|
            0 <= i < self.wsets.len() && 0 <= j < self.wsets.len() && i != j
                && #[trigger] self.wsets[i].holds(id) ==> !#[trigger] self.wsets[j].holds(id)
        &&& forall|p: int|
            0 <= p < self.pending_windows.len() ==> {
                &&& (#[trigger] self.pending_windows[p]).window.wf()
                &&& self.has_output(self.pending_windows[p].output)
                &&& !self.holds(self.pending_windows[p].window.id)
            }
        &&& forall|p: int, q: int|
            0 <= p < q < self.pending_windows.len() ==> (#[trigger] self.pending_windows[p]).window.id != (
            #[trigger] self.pending_windows[q]).window.id
        &&& forall|p: int|
            0 <= p < self.pending_layers.len() ==> {
                &&& (#[trigger] self.pending_layers[p]).layer.wf()
                &&& self.has_output(self.pending_layers[p].output)
            }
        &&& self.focus_state.output matches Some(o) ==> self.has_output(o)
    }

    /// The workspace set of an output that was just added: every workspace
    /// empty, the first one active.
    pub open spec fn fresh_set(output: OutputView) -> WorkspaceSetView {
        WorkspaceSetView {
            output,
            workspaces: Seq::new(WORKSPACE_COUNT as nat, |i: int| WorkspaceView::empty()),
            active_idx: 0,
            switch_animation: None,
        }
    }

    /// `output` can be added: it is well formed and its identity is free.
    pub open spec fn accepts_output(self, output: OutputView) -> bool {
        output.wf() && !self.has_output(output.id)
    }

    /// The state after `output` was added.
    pub open spec fn with_output(self, output: OutputView) -> FhtView {
        FhtView { wsets: self.wsets.push(Self::fresh_set(output)), ..self }
    }

    /// `window` can wait for the output `output`: it is well formed, the
    /// output exists, and no window of its identity is held or pending.
    pub open spec fn accepts_pending_window(self, window: WindowView, output: u32) -> bool {
        &&& window.wf()
        &&& self.has_output(output)
        &&& !self.holds(window.id)
        &&& !self.is_pending(window.id)
    }

    /// The state after `window` began to wait for the output `output`.
    pub open spec fn with_pending_window(self, window: WindowView, output: u32) -> FhtView {
        FhtView { pending_windows: self.pending_windows.push(PendingWindowView { window, output }), ..self }
    }

    /// `layer` can wait for the output `output`: it is well formed and the
    /// output exists.
    pub open spec fn accepts_pending_layer(self, layer: LayerSurfaceView, output: u32) -> bool {
        layer.wf() && self.has_output(output)
    }

    /// The state after `layer` began to wait for the output `output`.
    pub open spec fn with_pending_layer(self, layer: LayerSurfaceView, output: u32) -> FhtView {
        FhtView { pending_layers: self.pending_layers.push(PendingLayerView { layer, output }), ..self }
    }

    /// The index in the list of pending layer surfaces of the layer surface
    /// `id`.
    pub open spec fn pending_layer_index(self, id: u64) -> Option<int> {
        first_where(self.pending_layers, |p: PendingLayerView| p.layer.id == id)
    }

    /// The state after the pending layer surface `id` was mapped on the
    /// output it waited for; unchanged where no such layer surface waits.
    pub open spec fn map_layer(self, id: u64) -> FhtView {
        match self.pending_layer_index(id) {
            Some(p) => {
                let pending = self.pending_layers[p];
                let o = self.output_index(pending.output).unwrap();
                FhtView {
                    wsets: self.wsets.update(
                        o,
                        WorkspaceSetView { output: self.wsets[o].output.with_layer(pending.layer), ..self.wsets[o] },
                    ),
                    pending_layers: self.pending_layers.remove(p),
                    ..self
                }
            },
            None => self,
        }
    }

    /// The state without the window `id`; unchanged where no workspace holds
    /// it.
    pub open spec fn without_window(self, id: u64) -> FhtView {
        match self.set_index_for(id) {
            Some(i) => self.with_set(i, self.wsets[i].without_window(id)),
            None => self,
        }
    }

    /// The state with another focus state.
    pub open spec fn with_focus_state(self, focus_state: FocusState) -> FhtView {
        FhtView { focus_state, ..self }
    }

    /// The index of the workspace set that holds the window `id`.
    pub open spec fn set_index_for(self, id: u64) -> Option<int> {
        first_where(self.wsets, |s: WorkspaceSetView| s.holds(id))
    }

    /// The window `id` that some workspace holds.
    pub open spec fn window(self, id: u64) -> Option<WindowView> {
        match self.set_index_for(id) {
            Some(i) => self.wsets[i].window(id),
            None => None,
        }
    }

    /// The state with the workspace set at index `idx` replaced.
    pub open spec fn with_set(self, idx: int, set: WorkspaceSetView) -> FhtView {
        FhtView { wsets: self.wsets.update(idx, set), ..self }
    }

    /// The state with `window` in the place of the window `id`.
    pub open spec fn with_window_replaced(self, id: u64, window: WindowView) -> FhtView {
        match self.set_index_for(id) {
            Some(i) => self.with_set(i, self.wsets[i].with_window_replaced(id, window)),
            None => self,
        }
    }

    /// The state with another pointer.
    pub open spec fn with_pointer(self, pointer: PointerState) -> FhtView {
        FhtView { pointer, ..self }
    }

    /// The window `window` as it is mapped with `settings`: tiled unless it
    /// is to float, and with the fullscreen flag of the settings, which
    /// refers to `wl_output`.
    pub open spec fn prepared(window: WindowView, settings: MapSettingsView, wl_output: Option<u32>) -> WindowView {
        window.with_tiled(!settings.floating).with_fullscreen(settings.fullscreen, wl_output)
    }

    /// The index of the workspace set a pending window is mapped on: that of
    /// the output the settings name, where there is one, else that of the
    /// output proposed for the window.
    pub open spec fn target_output(self, proposed: int, settings: MapSettingsView) -> int {
        match settings.output {
            Some(name) => match self.output_named(name) {
                Some(t) => t,
                None => proposed,
            },
            None => proposed,
        }
    }

    /// The state after the pending window `id` was mapped with `settings`.
    ///
    /// Where no window `id` is pending the state is unchanged. Else the
    /// window leaves the pending list, takes the flags of the settings, and
    /// is mapped on the destination workspace of the target output, whose
    /// fullscreen window re-enters the sequence first; and the window takes
    /// the focus where new windows are to be focused.
    pub open spec fn map_window_with(self, id: u64, settings: MapSettingsView) -> FhtView {
        match self.pending_index(id) {
            None => self,
            Some(p) => {
                let pending = self.pending_windows[p];
                let proposed = self.output_index(pending.output).unwrap();
                let wl_output = self.wsets[proposed].output.last_client_output(pending.window.client);
                let window = Self::prepared(pending.window, settings, wl_output);
                let target = self.target_output(proposed, settings);
                let dest = self.wsets[target].destination(settings.workspace);
                FhtView {
                    wsets: self.wsets.update(target, self.wsets[target].with_mapped(dest, window)),
                    pending_windows: self.pending_windows.remove(p),
                    focus_state: if self.focus_new_windows {
                        self.focus_state.with_target(Some(FocusTarget::Window(id)))
                    } else {
                        self.focus_state
                    },
                    ..self
                }
            },
        }
    }

    /// The state after the pending window `id` was mapped with the initial
    /// settings.
    pub open spec fn map_window(self, id: u64) -> FhtView {
        self.map_window_with(id, MapSettingsView::initial())
    }
}

/// Mapping a pending window keeps the state well formed.
pub proof fn lemma_map_window_keeps_wf(s: FhtView, id: u64, settings: MapSettingsView)
    requires
        s.wf(),
    ensures
        s.map_window_with(id, settings).wf(),
{
    let after = s.map_window_with(id, settings);
    lemma_first_where(s.pending_windows, |p: PendingWindowView| p.window.id == id);
    match s.pending_index(id) {
        None => {},
        Some(p) => {
            let pending = s.pending_windows[p];
            assert(pending.window.id == id);
            assert(s.has_output(pending.output));
            lemma_output_index(s, pending.output);
            let proposed = s.output_index(pending.output).unwrap();
            let wl_output = s.wsets[proposed].output.last_client_output(pending.window.client);
            let window = FhtView::prepared(pending.window, settings, wl_output);
            let target = s.target_output(proposed, settings);
            match settings.output {
                Some(name) => {
                    lemma_first_where(s.wsets, |s: WorkspaceSetView| s.output.name == name);
                },
                None => {},
            }
            assert(0 <= target < s.wsets.len());
            let set = s.wsets[target];
            assert(set.wf());
            let dest = set.destination(settings.workspace);
            assert(!s.holds(id));
            assert(!set.holds(id));
            lemma_set_with_mapped_keeps(set, dest, window);
            let new_set = set.with_mapped(dest, window);
            assert(after.wsets[target] == new_set);
            assert forall|i: int| 0 <= i < after.wsets.len() implies (#[trigger] after.wsets[i]).wf() by {
                if i != target {
                    assert(s.wsets[i].wf());
                }
            }
            assert forall|i: int| 0 <= i < after.wsets.len() implies (#[trigger] after.wsets[i]).output
                == s.wsets[i].output by {}
            assert forall|i: int, wid: u64| 0 <= i < after.wsets.len() implies (
            #[trigger] after.wsets[i].holds(wid) <==> (s.wsets[i].holds(wid) || (i == target && wid == id))) by {
                if i == target {
                    assert(new_set.holds(wid) <==> (set.holds(wid) || wid == window.id));
                }
            }
            assert forall|i: int, j: int, wid: u64|
                0 <= i < after.wsets.len() && 0 <= j < after.wsets.len() && i != j
                    && #[trigger] after.wsets[i].holds(wid) implies !#[trigger] after.wsets[j].holds(wid) by {
                assert(after.wsets[j].holds(wid) <==> (s.wsets[j].holds(wid) || (j == target && wid == id)));
                if s.wsets[i].holds(wid) {
                    if wid == id {
                        assert(s.holds(id));
                    }
                    if s.wsets[j].holds(wid) {
                        assert(false);
                    }
                } else {
                    assert(wid == id && i == target);
                    if s.wsets[j].holds(wid) {
                        assert(s.holds(id));
                    }
                }
            }
            assert forall|o: u32| s.has_output(o) implies after.has_output(o) by {
                let i = choose|i: int| 0 <= i < s.wsets.len() && (#[trigger] s.wsets[i]).output.id == o;
                assert(after.wsets[i].output.id == o);
            }
            assert forall|q: int| 0 <= q < after.pending_windows.len() implies {
                &&& (#[trigger] after.pending_windows[q]).window.wf()
                &&& after.has_output(after.pending_windows[q].output)
                &&& !after.holds(after.pending_windows[q].window.id)
            } by {
                let q0 = if q < p { q } else { q + 1 };
                let other = s.pending_windows[q0];
                assert(after.pending_windows[q] == other);
                assert(other.window.wf());
                assert(s.has_output(other.output));
                assert(other.window.id != id);
                if after.holds(other.window.id) {
                    let i = choose|i: int| 0 <= i < after.wsets.len() && #[trigger] after.wsets[i].holds(other.window.id);
                    assert(s.wsets[i].holds(other.window.id));
                    assert(s.holds(other.window.id));
                }
            }
            assert forall|a: int, b: int| 0 <= a < b < after.pending_windows.len() implies (
            #[trigger] after.pending_windows[a]).window.id != (#[trigger] after.pending_windows[b]).window.id by {
                let a0 = if a < p { a } else { a + 1 };
                let b0 = if b < p { b } else { b + 1 };
                assert(s.pending_windows[a0].window.id != s.pending_windows[b0].window.id);
            }
            assert forall|q: int| 0 <= q < after.pending_layers.len() implies {
                &&& (#[trigger] after.pending_layers[q]).layer.wf()
                &&& after.has_output(after.pending_layers[q].output)
            } by {
                assert(s.pending_layers[q].layer.wf());
                assert(s.has_output(s.pending_layers[q].output));
            }
            assert(after.focus_state.output == s.focus_state.output);
        },
    }
}

/// Putting a well-formed workspace set for an output of the same identity,
/// which holds no window but those of the set it replaces, in the place of
/// that set keeps the state well formed.
pub proof fn lemma_with_set_keeps_wf(s: FhtView, idx: int, set: WorkspaceSetView)
    requires
        s.wf(),
        0 <= idx < s.wsets.len(),
        set.wf(),
        set.output.id == s.wsets[idx].output.id,
        forall|id: u64| #[trigger] set.holds(id) ==> s.wsets[idx].holds(id),
    ensures
        s.with_set(idx, set).wf(),
{
    let after = s.with_set(idx, set);
    assert forall|i: int, id: u64| 0 <= i < after.wsets.len() && #[trigger] after.wsets[i].holds(
        id,
    ) implies s.wsets[i].holds(id) by {
        if i == idx {
            assert(set.holds(id));
        }
    }
    assert forall|i: int| 0 <= i < after.wsets.len() implies (#[trigger] after.wsets[i]).wf() by {
        if i != idx {
            assert(s.wsets[i].wf());
        }
    }
    assert forall|i: int| 0 <= i < after.wsets.len() implies (#[trigger] after.wsets[i]).output.id
        == s.wsets[i].output.id by {}
    assert forall|i: int, j: int| 0 <= i < j < after.wsets.len() implies (#[trigger] after.wsets[i]).output.id
        != (#[trigger] after.wsets[j]).output.id by {
        assert(s.wsets[i].output.id != s.wsets[j].output.id);
    }
    assert forall|i: int, j: int, id: u64|
        0 <= i < after.wsets.len() && 0 <= j < after.wsets.len() && i != j
            && #[trigger] after.wsets[i].holds(id) implies !#[trigger] after.wsets[j].holds(id) by {
        assert(s.wsets[i].holds(id));
        if after.wsets[j].holds(id) {
            assert(s.wsets[j].holds(id));
        }
    }
    assert forall|o: u32| s.has_output(o) implies after.has_output(o) by {
        let i = choose|i: int| 0 <= i < s.wsets.len() && (#[trigger] s.wsets[i]).output.id == o;
        assert(after.wsets[i].output.id == o);
    }
    assert forall|p: int| 0 <= p < after.pending_windows.len() implies {
        &&& (#[trigger] after.pending_windows[p]).window.wf()
        &&& after.has_output(after.pending_windows[p].output)
        &&& !after.holds(after.pending_windows[p].window.id)
    } by {
        let pending = s.pending_windows[p];
        assert(pending.window.wf());
        assert(s.has_output(pending.output));
        if after.holds(pending.window.id) {
            let i = choose|i: int| 0 <= i < after.wsets.len() && #[trigger] after.wsets[i].holds(pending.window.id);
            assert(s.wsets[i].holds(pending.window.id));
            assert(s.holds(pending.window.id));
        }
    }
    assert forall|p: int| 0 <= p < after.pending_layers.len() implies {
        &&& (#[trigger] after.pending_layers[p]).layer.wf()
        &&& after.has_output(after.pending_layers[p].output)
    } by {
        assert(s.pending_layers[p].layer.wf());
        assert(s.has_output(s.pending_layers[p].output));
    }
}

/// Putting a well-formed workspace that holds no window but those of the
/// workspace it replaces in the place of that workspace keeps the state well
/// formed.
pub proof fn lemma_with_workspace_keeps_wf(s: FhtView, i: int, j: int, workspace: WorkspaceView)
    requires
        s.wf(),
        0 <= i < s.wsets.len(),
        0 <= j < s.wsets[i].workspaces.len(),
        workspace.wf(),
        forall|id: u64| #[trigger] workspace.holds(id) ==> s.wsets[i].workspaces[j].holds(id),
    ensures
        s.with_set(i, s.wsets[i].with_workspace(j, workspace)).wf(),
{
    crate::workspaces::lemma_set_with_workspace_keeps(s.wsets[i], j, workspace);
    lemma_with_set_keeps_wf(s, i, s.wsets[i].with_workspace(j, workspace));
}

/// The state has a window `id` exactly where it holds one, and that window
/// is well formed.
pub proof fn lemma_fht_window_of_held(s: FhtView, id: u64)
    requires
        s.wf(),
    ensures
        s.holds(id) <==> s.window(id) is Some,
        s.window(id) matches Some(w) ==> w.id == id && w.wf(),
        s.set_index_for(id) matches Some(i) ==> 0 <= i < s.wsets.len() && s.wsets[i].holds(id),
{
    let p = |set: WorkspaceSetView| set.holds(id);
    lemma_first_where(s.wsets, p);
    match s.set_index_for(id) {
        Some(i) => {
            assert(s.wsets[i].holds(id));
            crate::workspaces::lemma_set_window_of_held(s.wsets[i], id);
        },
        None => {
            assert forall|i: int| 0 <= i < s.wsets.len() implies !#[trigger] s.wsets[i].holds(id) by {
                assert(!p(s.wsets[i]));
            }
        },
    }
}

/// Putting a well-formed window of the same identity in the place of a
/// window keeps the state well formed.
pub proof fn lemma_window_replaced_keeps_wf(s: FhtView, id: u64, window: WindowView)
    requires
        s.wf(),
        window.wf(),
        window.id == id,
    ensures
        s.with_window_replaced(id, window).wf(),
{
    lemma_fht_window_of_held(s, id);
    match s.set_index_for(id) {
        Some(i) => {
            crate::workspaces::lemma_set_window_replaced_keeps(s.wsets[i], id, window);
            lemma_with_set_keeps_wf(s, i, s.wsets[i].with_window_replaced(id, window));
        },
        None => {},
    }
}

/// An output that exists has an index, and the set at that index is its set.
pub proof fn lemma_output_index(s: FhtView, id: u32)
    requires
        s.has_output(id),
    ensures
        s.output_index(id) matches Some(i) && 0 <= i < s.wsets.len() && s.wsets[i].output.id == id,
{
    let p = |s: WorkspaceSetView| s.output.id == id;
    lemma_first_where(s.wsets, p);
    if s.output_index(id) is None {
        let i = choose|i: int| 0 <= i < s.wsets.len() && (#[trigger] s.wsets[i]).output.id == id;
        assert(p(s.wsets[i]));
    }
}

/// The state of the shell.
#[derive(Debug)]
pub struct Fht {
    /// The workspace set of every output, in the order the outputs were
    /// added.
    pub(crate) wsets: Vec<WorkspaceSet>,
    pub(crate) pending_windows: Vec<PendingWindow>,
    pub(crate) pending_layers: Vec<PendingLayer>,
    pub(crate) focus_state: FocusState,
    pub(crate) pointer: PointerState,
    /// Whether a window takes the focus when it is mapped.
    pub(crate) focus_new_windows: bool,
}

impl View for Fht {
    type V = FhtView;

    open(crate) spec fn view(&self) -> FhtView {
        FhtView {
            wsets: views(self.wsets@),
            pending_windows: views(self.pending_windows@),
            pending_layers: views(self.pending_layers@),
            focus_state: self.focus_state,
            pointer: self.pointer,
            focus_new_windows: self.focus_new_windows,
        }
    }
}

impl Fht {
    /// A state with no output, no window and no focus.
    pub fn new(focus_new_windows: bool) -> (fht: Fht)
        ensures
            fht@ == FhtView::empty(focus_new_windows),
            fht@.wf(),
    {
        let fht = Fht {
            wsets: Vec::new(),
            pending_windows: Vec::new(),
            pending_layers: Vec::new(),
            focus_state: FocusState { output: None, focus_target: None },
            pointer: PointerState { grab: None, location: Point { x: 0, y: 0 } },
            focus_new_windows,
        };
        proof {
            assert(fht@.wsets =~= Seq::<WorkspaceSetView>::empty());
            assert(fht@.pending_windows =~= Seq::<PendingWindowView>::empty());
            assert(fht@.pending_layers =~= Seq::<PendingLayerView>::empty());
        }
        fht
    }

    /// Adds `output`, with its workspaces. An output that is not well
    /// formed, or whose identity is taken, is refused.
    pub fn add_output(&mut self, output: Output) -> (added: bool)
        requires
            old(self)@.wf(),
        ensures
            added == old(self)@.accepts_output(output@),
            final(self)@ == if added {
                old(self)@.with_output(output@)
            } else {
                old(self)@
            },
            final(self)@.wf(),
    {
        if !output.is_wf() {
            return false;
        }
        if self.output_index(output.id).is_some() {
            return false;
        }
        let ghost before = self@;
        let set = WorkspaceSet::new(output);
        proof {
            assert forall|j: int, id: u64| 0 <= j < set@.workspaces.len() implies !#[trigger] set@.workspaces[j].holds(
                id,
            ) by {}
            assert forall|id: u64| !set@.holds(id) by {}
        }
        self.wsets.push(set);
        proof {
            let after = self@;
            assert(after.wsets =~= before.wsets.push(FhtView::fresh_set(output@)));
            assert(after.pending_windows =~= before.pending_windows);
            assert(after.pending_layers =~= before.pending_layers);
            let n = before.wsets.len() as int;
            assert forall|i: int| 0 <= i < after.wsets.len() implies (#[trigger] after.wsets[i]).wf() by {
                if i < n {
                    assert(before.wsets[i].wf());
                }
            }
            assert forall|i: int, id: u64| 0 <= i < after.wsets.len() implies (#[trigger] after.wsets[i].holds(
                id,
            ) <==> (i < n && before.wsets[i].holds(id))) by {}
            assert forall|i: int, j: int|
                0 <= i < j < after.wsets.len() implies (#[trigger] after.wsets[i]).output.id != (
            #[trigger] after.wsets[j]).output.id by {
                if j < n {
                    assert(before.wsets[i].output.id != before.wsets[j].output.id);
                } else {
                    assert(before.wsets[i].output.id != output@.id);
                }
            }
            assert forall|i: int, j: int, id: u64|
                0 <= i < after.wsets.len() && 0 <= j < after.wsets.len() && i != j
                    && #[trigger] after.wsets[i].holds(id) implies !#[trigger] after.wsets[j].holds(id) by {
                assert(before.wsets[i].holds(id));
                assert(after.wsets[j].holds(id) <==> (j < n && before.wsets[j].holds(id)));
            }
            assert forall|o: u32| before.has_output(o) implies after.has_output(o) by {
                let i = choose|i: int| 0 <= i < before.wsets.len() && (#[trigger] before.wsets[i]).output.id == o;
                assert(after.wsets[i].output.id == o);
            }
            assert forall|id: u64| after.holds(id) implies before.holds(id) by {
                let i = choose|i: int| 0 <= i < after.wsets.len() && #[trigger] after.wsets[i].holds(id);
                assert(before.wsets[i].holds(id));
            }
            assert forall|p: int| 0 <= p < after.pending_windows.len() implies {
                &&& (#[trigger] after.pending_windows[p]).window.wf()
                &&& after.has_output(after.pending_windows[p].output)
                &&& !after.holds(after.pending_windows[p].window.id)
            } by {
                assert(before.pending_windows[p].window.wf());
            }
            assert forall|p: int| 0 <= p < after.pending_layers.len() implies {
                &&& (#[trigger] after.pending_layers[p]).layer.wf()
                &&& after.has_output(after.pending_layers[p].output)
            } by {
                assert(before.pending_layers[p].layer.wf());
            }
        }
        true
    }

    /// Lets `window` wait to be mapped on the output `output`. A window that
    /// is not well formed, that names no existing output, or whose identity
    /// is taken, is refused.
    pub fn add_pending_window(&mut self, window: FhtWindow, output: u32) -> (added: bool)
        requires
            old(self)@.wf(),
        ensures
            added == old(self)@.accepts_pending_window(window@, output),
            final(self)@ == if added {
                old(self)@.with_pending_window(window@, output)
            } else {
                old(self)@
            },
            final(self)@.wf(),
    {
        if !window.is_wf() || self.output_index(output).is_none() || self.has_window(window.id)
            || self.pending_index(window.id).is_some() {
            proof {
                lemma_first_where(self@.pending_windows, |p: PendingWindowView| p.window.id == window@.id);
            }
            return false;
        }
        let ghost before = self@;
        self.pending_windows.push(PendingWindow { window, output });
        proof {
            let after = self@;
            let n = before.pending_windows.len() as int;
            assert(after.pending_windows =~= before.pending_windows.push(
                PendingWindowView { window: window@, output },
            ));
            assert(after.wsets =~= before.wsets);
            assert(after.pending_layers =~= before.pending_layers);
            assert forall|p: int| 0 <= p < after.pending_windows.len() implies {
                &&& (#[trigger] after.pending_windows[p]).window.wf()
                &&& after.has_output(after.pending_windows[p].output)
                &&& !after.holds(after.pending_windows[p].window.id)
            } by {
                if p < n {
                    assert(before.pending_windows[p].window.wf());
                }
            }
            assert forall|p: int, q: int| 0 <= p < q < after.pending_windows.len() implies (
            #[trigger] after.pending_windows[p]).window.id != (#[trigger] after.pending_windows[q]).window.id by {
                if q < n {
                    assert(before.pending_windows[p].window.id != before.pending_windows[q].window.id);
                } else {
                    assert(before.pending_windows[p].window.id != window@.id);
                }
            }
        }
        true
    }

    /// Lets `layer` wait to be mapped on the output `output`. A layer
    /// surface that is not well formed or that names no existing output is
    /// refused.
    pub fn add_pending_layer(&mut self, layer: LayerSurface, output: u32) -> (added: bool)
        requires
            old(self)@.wf(),
        ensures
            added == old(self)@.accepts_pending_layer(layer@, output),
            final(self)@ == if added {
                old(self)@.with_pending_layer(layer@, output)
            } else {
                old(self)@
            },
            final(self)@.wf(),
    {
        if !layer.is_wf() || self.output_index(output).is_none() {
            return false;
        }
        let ghost before = self@;
        self.pending_layers.push(PendingLayer { layer, output });
        proof {
            let after = self@;
            let n = before.pending_layers.len() as int;
            assert(after.pending_layers =~= before.pending_layers.push(PendingLayerView { layer: layer@, output }));
            assert(after.wsets =~= before.wsets);
            assert(after.pending_windows =~= before.pending_windows);
            assert forall|p: int| 0 <= p < after.pending_layers.len() implies {
                &&& (#[trigger] after.pending_layers[p]).layer.wf()
                &&& after.has_output(after.pending_layers[p].output)
            } by {
                if p < n {
                    assert(before.pending_layers[p].layer.wf());
                }
            }
        }
        true
    }

    /// The workspace set of the output `id`, to change what does not touch
    /// the windows it holds.
    pub fn wset_mut_for(&mut self, id: u32) -> (r: Option<&mut WorkspaceSet>)
        ensures
            match r {
                Some(set) => old(self)@.output_index(id) matches Some(i) && set@ == old(self)@.wsets[i]
                    && final(self)@ =~~= old(self)@.with_set(i, final(set)@),
                None => old(self)@.output_index(id) is None && final(self)@ == old(self)@,
            },
    {
        match self.output_index(id) {
            Some(i) => Some(&mut self.wsets[i]),
            None => None,
        }
    }

    /// Maps the pending layer surface `id` on the output it waits for, and
    /// says whether such a layer surface waited.
    pub fn map_layer(&mut self, id: u64) -> (mapped: bool)
        requires
            old(self)@.wf(),
        ensures
            mapped == old(self)@.pending_layer_index(id) is Some,
            final(self)@ == old(self)@.map_layer(id),
            final(self)@.wf(),
    {
        let i = match self.pending_layer_index(id) {
            Some(i) => i,
            None => {
                return false;
            },
        };
        let ghost before = self@;
        proof {
            assert(before.pending_layers[i as int] == self.pending_layers[i as int]@);
            assert(before.pending_layers[i as int].layer.wf());
            assert(before.has_output(before.pending_layers[i as int].output));
            lemma_output_index(before, before.pending_layers[i as int].output);
        }
        let PendingLayer { layer, output } = self.pending_layers.remove(i);
        assert(self@.pending_layers =~= before.pending_layers.remove(i as int));
        assert(self@.wsets == before.wsets);
        let o = match self.output_index(output) {
            Some(o) => o,
            None => {
                // A pending layer surface waits for an output that exists.
                assert(false);
                return false;
            },
        };
        assert(self@.wsets[o as int] == self.wsets[o as int]@);
        assert(before.wsets[o as int].wf());
        let ghost old_set = before.wsets[o as int];
        self.wsets[o].output.map_layer(layer);
        proof {
            let new_set = WorkspaceSetView { output: old_set.output.with_layer(layer@), ..old_set };
            assert(self.wsets[o as int]@ == new_set);
            assert(self@.wsets =~= before.wsets.update(o as int, new_set));
            assert(new_set.wf());
            assert forall|wid: u64| #[trigger] new_set.holds(wid) implies old_set.holds(wid) by {}
            let middle = FhtView { pending_layers: before.pending_layers.remove(i as int), ..before };
            assert(middle.wf()) by {
                assert forall|q: int| 0 <= q < middle.pending_layers.len() implies {
                    &&& (#[trigger] middle.pending_layers[q]).layer.wf()
                    &&& middle.has_output(middle.pending_layers[q].output)
                } by {
                    let q0 = if q < i { q } else { q + 1 };
                    assert(before.pending_layers[q0].layer.wf());
                    assert(before.has_output(before.pending_layers[q0].output));
                }
                assert forall|q: int| 0 <= q < middle.pending_windows.len() implies {
                    &&& (#[trigger] middle.pending_windows[q]).window.wf()
                    &&& middle.has_output(middle.pending_windows[q].output)
                    &&& !middle.holds(middle.pending_windows[q].window.id)
                } by {
                    assert(before.pending_windows[q].window.wf());
                }
            }
            lemma_with_set_keeps_wf(middle, o as int, new_set);
            assert(self@ == middle.with_set(o as int, new_set));
        }
        true
    }

    /// Gives the window `id` another geometry, and says whether it did: a
    /// window that no workspace holds has none to change, and a geometry
    /// with a negative dimension is refused.
    pub fn set_window_geometry(&mut self, id: u64, geometry: Rect) -> (set: bool)
        requires
            old(self)@.wf(),
        ensures
            set == (old(self)@.holds(id) && geometry.wf()),
            final(self)@ == if set {
                old(self)@.with_window_replaced(id, old(self)@.window(id).unwrap().with_geometry(geometry))
            } else {
                old(self)@
            },
            final(self)@.wf(),
    {
        proof {
            lemma_fht_window_of_held(self@, id);
        }
        if !geometry.is_wf() {
            return false;
        }
        let i = match self.site_of(id) {
            Some((i, _)) => i,
            None => {
                return false;
            },
        };
        let ghost before = self@;
        proof {
            assert(before.wsets[i as int] == self.wsets[i as int]@);
            lemma_window_replaced_keeps_wf(before, id, before.window(id).unwrap().with_geometry(geometry));
        }
        self.wsets[i].set_window_geometry(id, geometry);
        proof {
            assert(self@.wsets =~= before.wsets.update(i as int, self.wsets[i as int]@));
        }
        true
    }

    /// Takes the window `id` out of the workspace that holds it.
    pub fn unmap_window(&mut self, id: u64) -> (r: Option<FhtWindow>)
        requires
            old(self)@.wf(),
        ensures
            match r {
                Some(w) => old(self)@.window(id) == Some(w@),
                None => old(self)@.window(id) is None,
            },
            final(self)@ == old(self)@.without_window(id),
            final(self)@.wf(),
    {
        proof {
            lemma_fht_window_of_held(self@, id);
        }
        let i = match self.site_of(id) {
            Some((i, _)) => i,
            None => {
                return None;
            },
        };
        let ghost before = self@;
        proof {
            assert(before.wsets[i as int] == self.wsets[i as int]@);
        }
        let window = self.wsets[i].remove_window(id);
        proof {
            assert(self@.wsets =~= before.wsets.update(i as int, self.wsets[i as int]@));
            lemma_with_set_keeps_wf(before, i as int, self.wsets[i as int]@);
        }
        window
    }

    /// Focuses the output `output`, or none. An output that does not exist
    /// is refused.
    pub fn set_focused_output(&mut self, output: Option<u32>) -> (set: bool)
        requires
            old(self)@.wf(),
        ensures
            set == (output matches Some(o) ==> old(self)@.has_output(o)),
            final(self)@ == if set {
                old(self)@.with_focus_state(FocusState { output, ..old(self)@.focus_state })
            } else {
                old(self)@
            },
            final(self)@.wf(),
    {
        match output {
            Some(o) => {
                if self.output_index(o).is_none() {
                    return false;
                }
            },
            None => {},
        }
        self.focus_state.output = output;
        true
    }

    /// Gives the focus to `target`, or to nothing.
    pub fn set_focus_target(&mut self, target: Option<FocusTarget>)
        requires
            old(self)@.wf(),
        ensures
            final(self)@ == old(self)@.with_focus_state(old(self)@.focus_state.with_target(target)),
            final(self)@.wf(),
    {
        self.focus_state.focus_target = target;
    }

    /// Records where the pointer is.
    pub fn set_pointer_location(&mut self, location: Point)
        requires
            old(self)@.wf(),
        ensures
            final(self)@ == old(self)@.with_pointer(PointerState { location, ..old(self)@.pointer }),
            final(self)@.wf(),
    {
        self.pointer.location = location;
    }

    /// Records the grab that owns the pointer, or that none does.
    pub fn set_pointer_grab(&mut self, grab: Option<PointerGrab>)
        requires
            old(self)@.wf(),
        ensures
            final(self)@ == old(self)@.with_pointer(old(self)@.pointer.with_grab(grab)),
            final(self)@.wf(),
    {
        self.pointer.grab = grab;
    }

    /// Which output is focused and what holds the focus.
    pub fn focus_state(&self) -> (f: FocusState)
        ensures
            f == self@.focus_state,
    {
        self.focus_state
    }

    /// Where the pointer is and what grabs it.
    pub fn pointer(&self) -> (p: PointerState)
        ensures
            p == self@.pointer,
    {
        self.pointer
    }

    /// The number of outputs.
    pub fn output_count(&self) -> (n: usize)
        ensures
            n == self@.wsets.len(),
    {
        self.wsets.len()
    }

    /// The number of pending windows.
    pub fn pending_window_count(&self) -> (n: usize)
        ensures
            n == self@.pending_windows.len(),
    {
        self.pending_windows.len()
    }

    /// The index of the workspace set of the output `id`.
    pub fn output_index(&self, id: u32) -> (r: Option<usize>)
        ensures
            match r {
                Some(i) => self@.output_index(id) == Some(i as int) && i < self@.wsets.len()
                    && self@.wsets[i as int].output.id == id,
                None => self@.output_index(id) is None && !self@.has_output(id),
            },
    {
        let ghost p = |s: WorkspaceSetView| s.output.id == id;
        let mut i: usize = 0;
        while i < self.wsets.len()
            invariant
                i <= self.wsets.len(),
                p == (|s: WorkspaceSetView| s.output.id == id),
                forall|k: int| 0 <= k < i ==> !p(#[trigger] self@.wsets[k]),
            decreases self.wsets.len() - i,
        {
            assert(self@.wsets[i as int] == self.wsets[i as int]@);
            if self.wsets[i].output.id == id {
                proof {
                    assert(is_first_where(self@.wsets, p, i as int));
                    lemma_first_where_found(self@.wsets, p, i as int);
                }
                return Some(i);
            }
            i += 1;
        }
        proof {
            assert(none_where(self@.wsets, p));
            lemma_first_where_none(self@.wsets, p);
            assert forall|k: int| 0 <= k < self@.wsets.len() implies (#[trigger] self@.wsets[k]).output.id
                != id by {
                assert(!p(self@.wsets[k]));
            }
        }
        None
    }

    /// The index of the workspace set of the first output named `name`.
    pub fn output_named(&self, name: &String) -> (r: Option<usize>)
        ensures
            match r {
                Some(i) => self@.output_named(name@) == Some(i as int) && i < self@.wsets.len(),
                None => self@.output_named(name@) is None,
            },
    {
        let ghost p = |s: WorkspaceSetView| s.output.name == name@;
        let mut i: usize = 0;
        while i < self.wsets.len()
            invariant
                i <= self.wsets.len(),
                p == (|s: WorkspaceSetView| s.output.name == name@),
                forall|k: int| 0 <= k < i ==> !p(#[trigger] self@.wsets[k]),
            decreases self.wsets.len() - i,
        {
            assert(self@.wsets[i as int] == self.wsets[i as int]@);
            if self.wsets[i].output.name == *name {
                proof {
                    assert(is_first_where(self@.wsets, p, i as int));
                    lemma_first_where_found(self@.wsets, p, i as int);
                }
                return Some(i);
            }
            i += 1;
        }
        proof {
            assert(none_where(self@.wsets, p));
            lemma_first_where_none(self@.wsets, p);
        }
        None
    }

    /// The workspace set of the output `id`.
    pub fn wset_for(&self, id: u32) -> (r: Option<&WorkspaceSet>)
        ensures
            match r {
                Some(set) => self@.output_index(id) matches Some(i) && set@ == self@.wsets[i],
                None => self@.output_index(id) is None,
            },
    {
        match self.output_index(id) {
            Some(i) => Some(&self.wsets[i]),
            None => None,
        }
    }

    /// The index in the pending list of the window `id`.
    pub fn pending_index(&self, id: u64) -> (r: Option<usize>)
        ensures
            match r {
                Some(p) => self@.pending_index(id) == Some(p as int) && p < self@.pending_windows.len(),
                None => self@.pending_index(id) is None && !self@.is_pending(id),
            },
    {
        let ghost p = |w: PendingWindowView| w.window.id == id;
        let mut i: usize = 0;
        while i < self.pending_windows.len()
            invariant
                i <= self.pending_windows.len(),
                p == (|w: PendingWindowView| w.window.id == id),
                forall|k: int| 0 <= k < i ==> !p(#[trigger] self@.pending_windows[k]),
            decreases self.pending_windows.len() - i,
        {
            assert(self@.pending_windows[i as int] == self.pending_windows[i as int]@);
            if self.pending_windows[i].window.id == id {
                proof {
                    assert(is_first_where(self@.pending_windows, p, i as int));
                    lemma_first_where_found(self@.pending_windows, p, i as int);
                }
                return Some(i);
            }
            i += 1;
        }
        proof {
            assert(none_where(self@.pending_windows, p));
            lemma_first_where_none(self@.pending_windows, p);
            assert forall|k: int| 0 <= k < self@.pending_windows.len() implies (
            #[trigger] self@.pending_windows[k]).window.id != id by {
                assert(!p(self@.pending_windows[k]));
            }
        }
        None
    }

    /// The index in the list of pending layer surfaces of the layer surface
    /// `id`.
    pub fn pending_layer_index(&self, id: u64) -> (r: Option<usize>)
        ensures
            match r {
                Some(p) => self@.pending_layer_index(id) == Some(p as int) && p < self@.pending_layers.len(),
                None => self@.pending_layer_index(id) is None,
            },
    {
        let ghost p = |l: PendingLayerView| l.layer.id == id;
        let mut i: usize = 0;
        while i < self.pending_layers.len()
            invariant
                i <= self.pending_layers.len(),
                p == (|l: PendingLayerView| l.layer.id == id),
                forall|k: int| 0 <= k < i ==> !p(#[trigger] self@.pending_layers[k]),
            decreases self.pending_layers.len() - i,
        {
            assert(self@.pending_layers[i as int] == self.pending_layers[i as int]@);
            if self.pending_layers[i].layer.id == id {
                proof {
                    assert(is_first_where(self@.pending_layers, p, i as int));
                    lemma_first_where_found(self@.pending_layers, p, i as int);
                }
                return Some(i);
            }
            i += 1;
        }
        proof {
            assert(none_where(self@.pending_layers, p));
            lemma_first_where_none(self@.pending_layers, p);
        }
        None
    }

    /// Whether some workspace of some output holds the window `id`.
    pub fn has_window(&self, id: u64) -> (b: bool)
        ensures
            b == self@.holds(id),
    {
        let mut i: usize = 0;
        while i < self.wsets.len()
            invariant
                i <= self.wsets.len(),
                forall|k: int| 0 <= k < i ==> !#[trigger] self@.wsets[k].holds(id),
            decreases self.wsets.len() - i,
        {
            assert(self@.wsets[i as int] == self.wsets[i as int]@);
            if self.wsets[i].has_window(id) {
                return true;
            }
            i += 1;
        }
        false
    }
}

/// The compositor's state, as far as the shell is concerned.
#[derive(Debug)]
pub struct State {
    pub(crate) fht: Fht,
}

impl View for State {
    type V = FhtView;

    open(crate) spec fn view(&self) -> FhtView {
        self.fht@
    }
}

impl State {
    /// The compositor state around the shell state `fht`.
    pub fn new(fht: Fht) -> (state: State)
        ensures
            state@ == fht@,
    {
        State { fht }
    }

    /// The shell state.
    pub fn fht(&self) -> (fht: &Fht)
        ensures
            fht@ == self@,
    {
        &self.fht
    }

    /// The shell state, to be changed in place.
    pub fn fht_mut(&mut self) -> (fht: &mut Fht)
        ensures
            fht@ == old(self)@,
            final(self)@ == final(fht)@,
    {
        &mut self.fht
    }

    /// Gives the shell state back.
    pub fn into_fht(self) -> (fht: Fht)
        ensures
            fht@ == self@,
    {
        self.fht
    }
}

} // verus!
