//! The workspaces of one output, the one that is active, and the switch
//! between two of them.

use vstd::prelude::*;
use crate::animation::{Animation, AnimationView};
use crate::focus::FocusTarget;
use crate::geometry::{Point, Rect};
use crate::output::{Layer, Output, OutputView};
use crate::search::{
    first_where, is_first_where, is_last_where, lemma_first_where, lemma_first_where_found,
    lemma_first_where_none, lemma_last_where, none_where, views,
};
use crate::window::{FhtWindow, WindowView};
use crate::workspaces::workspace::{
    lemma_fullscreened_keeps, lemma_window_of_held, lemma_window_replaced_keeps,
    lemma_with_mapped_keeps, lemma_without_window_keeps, Workspace, WorkspaceView,
};

verus! {

/// The number of workspaces of every output.
pub const WORKSPACE_COUNT: usize = 9;

/// The mathematical content of a [`WorkspaceSwitchAnimation`].
pub struct SwitchView {
    pub target_idx: usize,
    pub animation: AnimationView,
}

/// A switch from the active workspace to another one, in flight.
#[derive(Debug)]
pub struct WorkspaceSwitchAnimation {
    pub(crate) target_idx: usize,
    pub(crate) animation: Animation,
}

impl View for WorkspaceSwitchAnimation {
    type V = SwitchView;

    open(crate) spec fn view(&self) -> SwitchView {
        SwitchView { target_idx: self.target_idx, animation: self.animation@ }
    }
}

impl WorkspaceSwitchAnimation {
    /// The index of the workspace switched to.
    pub fn target_idx(&self) -> (i: usize)
        ensures
            i == self@.target_idx,
    {
        self.target_idx
    }

    /// The animation that times the switch.
    pub fn animation(&self) -> (a: &Animation)
        ensures
            a@ == self@.animation,
    {
        &self.animation
    }
}

/// The views of an optional switch animation.
pub open spec fn switch_view(switch: Option<WorkspaceSwitchAnimation>) -> Option<SwitchView> {
    match switch {
        Some(s) => Some(s@),
        None => None,
    }
}

/// The mathematical content of a [`WorkspaceSet`].
#[verifier::ext_equal]
pub struct WorkspaceSetView {
    pub output: OutputView,
    pub workspaces: Seq<WorkspaceView>,
    pub active_idx: usize,
    pub switch_animation: Option<SwitchView>,
}

impl WorkspaceSetView {
    /// Some workspace of the set holds the window `id`.
    pub open spec fn holds(self, id: u64) -> bool {
        exists|i: int| 0 <= i < self.workspaces.len() && #[trigger] self.workspaces[i].holds(id)
    }

    /// The set has its fixed number of workspaces, each well formed; the
    /// active index is valid; a switch in flight leads to another valid
    /// index; and no window is held by two workspaces.
    pub open spec fn wf(self) -> bool {
        &&& self.output.wf()
        &&& self.workspaces.len() == WORKSPACE_COUNT
        &&& self.active_idx < self.workspaces.len()
        &&& forall|i: int| 0 <= i < self.workspaces.len() ==> (#[trigger] self.workspaces[i]).wf()
        &&& self.switch_animation matches Some(s) ==> {
            &&& s.target_idx < self.workspaces.len()
            &&& s.target_idx != self.active_idx
            &&& s.animation.wf()
        }
        &&& forall|i: int, j: int, id: u64|
            0 <= i < self.workspaces.len() && 0 <= j < self.workspaces.len() && i != j && #[trigger] self.workspaces[i].holds(id) ==> !#[trigger] self.workspaces[j].holds(id)
    }

    /// The active workspace.
    pub open spec fn active(self) -> WorkspaceView {
        self.workspaces[self.active_idx as int]
    }

    /// The index of the workspace a window is mapped on: the requested index
    /// brought into range, or the active index where none is requested.
    pub open spec fn destination(self, requested: Option<usize>) -> int {
        match requested {
            Some(idx) => if idx < self.workspaces.len() {
                idx as int
            } else {
                self.workspaces.len() - 1
            },
            None => self.active_idx as int,
        }
    }

    /// The set with the workspace at index `idx` replaced.
    pub open spec fn with_workspace(self, idx: int, workspace: WorkspaceView) -> WorkspaceSetView {
        WorkspaceSetView { workspaces: self.workspaces.update(idx, workspace), ..self }
    }

    /// The set after `window` was mapped on the workspace at index `idx`.
    pub open spec fn with_mapped(self, idx: int, window: WindowView) -> WorkspaceSetView {
        self.with_workspace(idx, self.workspaces[idx].with_mapped(window))
    }

    /// The index of the workspace that holds the window `id`.
    pub open spec fn workspace_index_for(self, id: u64) -> Option<int> {
        first_where(self.workspaces, |ws: WorkspaceView| ws.holds(id))
    }

    /// The window `id` that the set holds.
    pub open spec fn window(self, id: u64) -> Option<WindowView> {
        match self.workspace_index_for(id) {
            Some(j) => self.workspaces[j].window(id),
            None => None,
        }
    }

    /// The set without the window `id`.
    pub open spec fn without_window(self, id: u64) -> WorkspaceSetView {
        match self.workspace_index_for(id) {
            Some(j) => self.with_workspace(j, self.workspaces[j].without_window(id)),
            None => self,
        }
    }

    /// The set with `window` in the place of the window `id`.
    pub open spec fn with_window_replaced(self, id: u64, window: WindowView) -> WorkspaceSetView {
        match self.workspace_index_for(id) {
            Some(j) => self.with_workspace(j, self.workspaces[j].with_window_replaced(id, window)),
            None => self,
        }
    }

    /// The window that `surface` belongs to, in the first workspace that has
    /// such a window.
    pub open spec fn find_window(self, surface: u64) -> Option<WindowView> {
        match first_where(self.workspaces, |ws: WorkspaceView| ws.has_surface(surface)) {
            Some(i) => self.workspaces[i].find_window(surface),
            None => None,
        }
    }

    /// What is under `point` on this output, with the origin of its
    /// coordinate system in the global space.
    ///
    /// The first of these that applies decides: an overlay layer surface
    /// under the point; the fullscreen window of the active workspace,
    /// wherever the point is; a top layer surface under the point; the
    /// topmost window of the active workspace under the point; a bottom layer
    /// surface under the point; a background layer surface under the point.
    pub open spec fn focus_target_under(self, point: Point) -> Option<(FocusTarget, Point)> {
        let output = self.output;
        let active = self.active();
        if let Some(i) = output.layer_under(Layer::Overlay, point) {
            Some((FocusTarget::LayerSurface(output.layers[i].id), output.layer_origin(i)))
        } else if let Some(f) = active.fullscreen {
            Some((FocusTarget::Window(f.inner.id), output.geometry.loc))
        } else if let Some(i) = output.layer_under(Layer::Top, point) {
            Some((FocusTarget::LayerSurface(output.layers[i].id), output.layer_origin(i)))
        } else if let Some(k) = active.window_under(point) {
            Some((FocusTarget::Window(active.windows[k].id), active.windows[k].geometry.loc))
        } else if let Some(i) = output.layer_under(Layer::Bottom, point) {
            Some((FocusTarget::LayerSurface(output.layers[i].id), output.layer_origin(i)))
        } else if let Some(i) = output.layer_under(Layer::Background, point) {
            Some((FocusTarget::LayerSurface(output.layers[i].id), output.layer_origin(i)))
        } else {
            None
        }
    }

    /// The windows on display: a fullscreen window alone, else the sequence
    /// of the active workspace, followed during a switch by that of the
    /// workspace switched to.
    pub open spec fn visible_windows(self) -> Seq<WindowView> {
        let active = self.active();
        match self.switch_animation {
            Some(s) => {
                let target = self.workspaces[s.target_idx as int];
                match active.fullscreen {
                    Some(f) => seq![f.inner],
                    None => match target.fullscreen {
                        Some(f) => seq![f.inner],
                        None => active.windows + target.windows,
                    },
                }
            },
            None => match active.fullscreen {
                Some(f) => seq![f.inner],
                None => active.windows,
            },
        }
    }
}

/// Mapping a window that the set does not hold keeps the set well formed
/// and adds that one window.
pub proof fn lemma_set_with_mapped_keeps(set: WorkspaceSetView, idx: int, window: WindowView)
    requires
        set.wf(),
        0 <= idx < set.workspaces.len(),
        window.wf(),
        !set.holds(window.id),
    ensures
        set.with_mapped(idx, window).wf(),
        forall|id: u64| #[trigger] set.with_mapped(idx, window).holds(id) <==> (set.holds(id) || id == window.id),
{
    let after = set.with_mapped(idx, window);
    let before_ws = set.workspaces[idx];
    let after_ws = before_ws.with_mapped(window);
    assert(!before_ws.holds(window.id));
    lemma_with_mapped_keeps(before_ws, window);
    assert forall|i: int| 0 <= i < after.workspaces.len() implies (#[trigger] after.workspaces[i]).wf() by {
        if i != idx {
            assert(set.workspaces[i].wf());
        }
    }
    assert forall|id: u64| #[trigger] after.holds(id) <==> (set.holds(id) || id == window.id) by {
        if after.holds(id) {
            let i = choose|i: int| 0 <= i < after.workspaces.len() && #[trigger] after.workspaces[i].holds(id);
            if i != idx {
                assert(set.workspaces[i].holds(id));
            } else {
                assert(after_ws.holds(id) <==> (before_ws.holds(id) || id == window.id));
            }
        }
        if set.holds(id) {
            let i = choose|i: int| 0 <= i < set.workspaces.len() && #[trigger] set.workspaces[i].holds(id);
            if i != idx {
                assert(after.workspaces[i].holds(id));
            } else {
                assert(after_ws.holds(id) <==> (before_ws.holds(id) || id == window.id));
                assert(after.workspaces[idx].holds(id));
            }
        }
        if id == window.id {
            assert(after_ws.holds(id) <==> (before_ws.holds(id) || id == window.id));
            assert(after.workspaces[idx].holds(id));
        }
    }
    assert forall|i: int, j: int, id: u64|
        0 <= i < after.workspaces.len() && 0 <= j < after.workspaces.len() && i != j && #[trigger] after.workspaces[i].holds(id) implies !#[trigger] after.workspaces[j].holds(id) by {
        assert(after_ws.holds(id) <==> (before_ws.holds(id) || id == window.id));
        if i == idx {
            if set.workspaces[j].holds(id) {
                assert(set.workspaces[idx].holds(id) || id == window.id);
            }
        } else if j == idx {
            assert(set.workspaces[i].holds(id));
            if after_ws.holds(id) {
                assert(set.workspaces[idx].holds(id) || id == window.id);
            }
        } else {
            assert(set.workspaces[i].holds(id));
        }
    }
}

/// Putting a well-formed workspace that holds no window but those of the
/// workspace it replaces in the place of that workspace keeps the set well
/// formed; the set then holds what it held, but for the windows that the
/// workspace lost.
pub proof fn lemma_set_with_workspace_keeps(set: WorkspaceSetView, idx: int, workspace: WorkspaceView)
    requires
        set.wf(),
        0 <= idx < set.workspaces.len(),
        workspace.wf(),
        forall|id: u64| #[trigger] workspace.holds(id) ==> set.workspaces[idx].holds(id),
    ensures
        set.with_workspace(idx, workspace).wf(),
        forall|id: u64| #[trigger]
            set.with_workspace(idx, workspace).holds(id) <==> (set.holds(id) && (set.workspaces[idx].holds(id)
                ==> workspace.holds(id))),
{
    let after = set.with_workspace(idx, workspace);
    assert forall|i: int, id: u64| 0 <= i < after.workspaces.len() && #[trigger] after.workspaces[i].holds(
        id,
    ) implies set.workspaces[i].holds(id) by {
        if i == idx {
            assert(workspace.holds(id));
        }
    }
    assert forall|i: int| 0 <= i < after.workspaces.len() implies (#[trigger] after.workspaces[i]).wf() by {
        if i != idx {
            assert(set.workspaces[i].wf());
        }
    }
    assert forall|id: u64| #[trigger]
        after.holds(id) <==> (set.holds(id) && (set.workspaces[idx].holds(id) ==> workspace.holds(id))) by {
        if after.holds(id) {
            let i = choose|i: int| 0 <= i < after.workspaces.len() && #[trigger] after.workspaces[i].holds(id);
            assert(set.workspaces[i].holds(id));
            if i != idx && set.workspaces[idx].holds(id) {
                assert(false);
            }
        }
        if set.holds(id) && (set.workspaces[idx].holds(id) ==> workspace.holds(id)) {
            let i = choose|i: int| 0 <= i < set.workspaces.len() && #[trigger] set.workspaces[i].holds(id);
            if i == idx {
                assert(after.workspaces[idx].holds(id));
            } else {
                assert(after.workspaces[i].holds(id));
            }
        }
    }
    assert forall|i: int, j: int, id: u64|
        0 <= i < after.workspaces.len() && 0 <= j < after.workspaces.len() && i != j
            && #[trigger] after.workspaces[i].holds(id) implies !#[trigger] after.workspaces[j].holds(id) by {
        assert(set.workspaces[i].holds(id));
        if after.workspaces[j].holds(id) {
            assert(set.workspaces[j].holds(id));
        }
    }
}

/// A set has a window `id` exactly where it holds one, and that window is
/// well formed.
pub proof fn lemma_set_window_of_held(set: WorkspaceSetView, id: u64)
    requires
        set.wf(),
    ensures
        set.holds(id) <==> set.window(id) is Some,
        set.window(id) matches Some(w) ==> w.id == id && w.wf(),
        set.workspace_index_for(id) matches Some(j) ==> 0 <= j < set.workspaces.len()
            && set.workspaces[j].holds(id),
{
    let p = |ws: WorkspaceView| ws.holds(id);
    lemma_first_where(set.workspaces, p);
    match set.workspace_index_for(id) {
        Some(j) => {
            assert(set.workspaces[j].holds(id));
            lemma_window_of_held(set.workspaces[j], id);
        },
        None => {
            assert forall|i: int| 0 <= i < set.workspaces.len() implies !#[trigger] set.workspaces[i].holds(
                id,
            ) by {
                assert(!p(set.workspaces[i]));
            }
        },
    }
}

/// Putting a well-formed window of the same identity in the place of a
/// window keeps a set well formed and keeps the windows it holds.
pub proof fn lemma_set_window_replaced_keeps(set: WorkspaceSetView, id: u64, window: WindowView)
    requires
        set.wf(),
        window.wf(),
        window.id == id,
    ensures
        set.with_window_replaced(id, window).wf(),
        set.with_window_replaced(id, window).output == set.output,
        forall|other: u64| #[trigger] set.with_window_replaced(id, window).holds(other) <==> set.holds(other),
{
    lemma_set_window_of_held(set, id);
    match set.workspace_index_for(id) {
        Some(j) => {
            lemma_window_replaced_keeps(set.workspaces[j], id, window);
            lemma_set_with_workspace_keeps(set, j, set.workspaces[j].with_window_replaced(id, window));
        },
        None => {},
    }
}

/// An overlay layer surface under the point takes the focus before a
/// fullscreen window; a fullscreen window before every window of the
/// sequence; and without either, and without a top layer surface under the
/// point, the topmost window under the point takes it.
pub proof fn lemma_focus_precedence(set: WorkspaceSetView, point: Point)
    ensures
        set.output.layer_under(Layer::Overlay, point) matches Some(i) ==> set.focus_target_under(point)
            == Some((FocusTarget::LayerSurface(set.output.layers[i].id), set.output.layer_origin(i))),
        set.output.layer_under(Layer::Overlay, point) is None ==> (set.active().fullscreen matches Some(f)
            ==> set.focus_target_under(point) == Some(
            (FocusTarget::Window(f.inner.id), set.output.geometry.loc),
        )),
        set.output.layer_under(Layer::Overlay, point) is None && set.active().fullscreen is None
            && set.output.layer_under(Layer::Top, point) is None ==> (set.active().window_under(point) matches Some(
            k,
        ) ==> {
            &&& set.focus_target_under(point) == Some(
                (FocusTarget::Window(set.active().windows[k].id), set.active().windows[k].geometry.loc),
            )
            &&& is_last_where(set.active().windows, |w: WindowView| w.geometry.spec_contains(point), k)
        }),
{
    lemma_last_where(set.active().windows, |w: WindowView| w.geometry.spec_contains(point));
}

/// All the workspaces of one output.
#[derive(Debug)]
pub struct WorkspaceSet {
    pub(crate) output: Output,
    pub(crate) workspaces: Vec<Workspace>,
    pub(crate) active_idx: usize,
    pub(crate) switch_animation: Option<WorkspaceSwitchAnimation>,
}

impl View for WorkspaceSet {
    type V = WorkspaceSetView;

    open(crate) spec fn view(&self) -> WorkspaceSetView {
        WorkspaceSetView {
            output: self.output@,
            workspaces: views(self.workspaces@),
            active_idx: self.active_idx,
            switch_animation: switch_view(self.switch_animation),
        }
    }
}

impl WorkspaceSet {
    /// The workspaces of `output`, all empty, the first one active.
    pub(crate) fn new(output: Output) -> (set: WorkspaceSet)
        requires
            output@.wf(),
        ensures
            set@ == (WorkspaceSetView {
                output: output@,
                workspaces: Seq::new(WORKSPACE_COUNT as nat, |i: int| WorkspaceView::empty()),
                active_idx: 0,
                switch_animation: None,
            }),
            set@.wf(),
    {
        let mut workspaces: Vec<Workspace> = Vec::new();
        let mut i: usize = 0;
        while i < WORKSPACE_COUNT
            invariant
                i <= WORKSPACE_COUNT,
                workspaces.len() == i,
                forall|k: int| 0 <= k < i ==> (#[trigger] workspaces[k])@ == WorkspaceView::empty(),
            decreases WORKSPACE_COUNT - i,
        {
            workspaces.push(Workspace::new());
            i += 1;
        }
        let set = WorkspaceSet { output, workspaces, active_idx: 0, switch_animation: None };
        proof {
            assert(set@.workspaces =~= Seq::new(WORKSPACE_COUNT as nat, |i: int| WorkspaceView::empty()));
            assert forall|i: int, id: u64| 0 <= i < set@.workspaces.len() implies !#[trigger] set@.workspaces[i].holds(id) by {}
        }
        set
    }

    /// The output the workspaces belong to.
    pub fn output(&self) -> (o: &Output)
        ensures
            o@ == self@.output,
    {
        &self.output
    }

    /// The index of the active workspace.
    pub fn active_idx(&self) -> (i: usize)
        ensures
            i == self@.active_idx,
    {
        self.active_idx
    }

    /// The workspace at index `idx`, if the set has that many.
    pub fn workspace(&self, idx: usize) -> (r: Option<&Workspace>)
        ensures
            match r {
                Some(ws) => idx < self@.workspaces.len() && ws@ == self@.workspaces[idx as int],
                None => idx >= self@.workspaces.len(),
            },
    {
        if idx < self.workspaces.len() {
            Some(&self.workspaces[idx])
        } else {
            None
        }
    }

    /// The active workspace.
    pub fn active(&self) -> (ws: &Workspace)
        requires
            self@.wf(),
        ensures
            ws@ == self@.active(),
    {
        &self.workspaces[self.active_idx]
    }

    /// The switch in flight.
    pub fn switch_animation(&self) -> (s: Option<&WorkspaceSwitchAnimation>)
        ensures
            match s {
                Some(a) => self@.switch_animation == Some(a@),
                None => self@.switch_animation is None,
            },
    {
        self.switch_animation.as_ref()
    }

    /// Whether some workspace of the set holds the window `id`.
    pub fn has_window(&self, id: u64) -> (b: bool)
        ensures
            b == self@.holds(id),
    {
        let mut i: usize = 0;
        while i < self.workspaces.len()
            invariant
                i <= self.workspaces.len(),
                forall|k: int| 0 <= k < i ==> !#[trigger] self@.workspaces[k].holds(id),
            decreases self.workspaces.len() - i,
        {
            assert(self@.workspaces[i as int] == self.workspaces[i as int]@);
            if self.workspaces[i].has_window(id) {
                return true;
            }
            i += 1;
        }
        false
    }

    /// The index of the workspace that holds the window `id`.
    pub fn workspace_index_for(&self, id: u64) -> (r: Option<usize>)
        ensures
            match r {
                Some(i) => self@.workspace_index_for(id) == Some(i as int) && i < self@.workspaces.len(),
                None => self@.workspace_index_for(id) is None,
            },
    {
        let ghost p = |ws: WorkspaceView| ws.holds(id);
        let mut i: usize = 0;
        while i < self.workspaces.len()
            invariant
                i <= self.workspaces.len(),
                p == (|ws: WorkspaceView| ws.holds(id)),
                forall|k: int| 0 <= k < i ==> !p(#[trigger] self@.workspaces[k]),
            decreases self.workspaces.len() - i,
        {
            assert(self@.workspaces[i as int] == self.workspaces[i as int]@);
            if self.workspaces[i].has_window(id) {
                proof {
                    assert(is_first_where(self@.workspaces, p, i as int));
                    lemma_first_where_found(self@.workspaces, p, i as int);
                }
                return Some(i);
            }
            i += 1;
        }
        proof {
            assert(none_where(self@.workspaces, p));
            lemma_first_where_none(self@.workspaces, p);
        }
        None
    }

    /// The workspace that holds the window `id`.
    pub fn ws_for(&self, id: u64) -> (r: Option<&Workspace>)
        ensures
            match r {
                Some(ws) => self@.workspace_index_for(id) matches Some(i) && ws@ == self@.workspaces[i],
                None => self@.workspace_index_for(id) is None,
            },
    {
        match self.workspace_index_for(id) {
            Some(i) => Some(&self.workspaces[i]),
            None => None,
        }
    }

    /// The window that `surface` belongs to.
    pub fn find_window(&self, surface: u64) -> (r: Option<&FhtWindow>)
        ensures
            match r {
                Some(w) => self@.find_window(surface) == Some(w@),
                None => self@.find_window(surface) is None,
            },
    {
        let ghost p = |ws: WorkspaceView| ws.has_surface(surface);
        let mut i: usize = 0;
        while i < self.workspaces.len()
            invariant
                i <= self.workspaces.len(),
                p == (|ws: WorkspaceView| ws.has_surface(surface)),
                forall|k: int| 0 <= k < i ==> !p(#[trigger] self@.workspaces[k]),
            decreases self.workspaces.len() - i,
        {
            assert(self@.workspaces[i as int] == self.workspaces[i as int]@);
            match self.workspaces[i].find_window(surface) {
                Some(w) => {
                    proof {
                        assert(is_first_where(self@.workspaces, p, i as int));
                        lemma_first_where_found(self@.workspaces, p, i as int);
                    }
                    return Some(w);
                },
                None => {},
            }
            i += 1;
        }
        proof {
            assert(none_where(self@.workspaces, p));
            lemma_first_where_none(self@.workspaces, p);
        }
        None
    }

    /// The layer surface at index `i`, as a focus target with its origin.
    fn layer_target(&self, i: usize) -> (r: (FocusTarget, Point))
        requires
            i < self@.output.layers.len(),
        ensures
            r == (FocusTarget::LayerSurface(self@.output.layers[i as int].id), self@.output.layer_origin(i as int)),
    {
        let layer = &self.output.layers[i];
        assert(self@.output.layers[i as int] == layer@);
        (FocusTarget::LayerSurface(layer.id), self.output.geometry.loc.add(layer.geometry.loc))
    }

    /// What is under `point` on this output, with the origin of its
    /// coordinate system in the global space.
    pub fn focus_target_under(&self, point: Point) -> (r: Option<(FocusTarget, Point)>)
        requires
            self@.wf(),
        ensures
            r == self@.focus_target_under(point),
    {
        let active = &self.workspaces[self.active_idx];
        assert(self@.workspaces[self.active_idx as int] == active@);
        if let Some(i) = self.output.layer_under(Layer::Overlay, point) {
            return Some(self.layer_target(i));
        }
        if let Some(f) = &active.fullscreen {
            return Some((FocusTarget::Window(f.inner.id), self.output.geometry.loc));
        }
        if let Some(i) = self.output.layer_under(Layer::Top, point) {
            return Some(self.layer_target(i));
        }
        if let Some(k) = active.window_under(point) {
            let window = &active.windows[k];
            assert(active@.windows[k as int] == window@);
            return Some((FocusTarget::Window(window.id), window.geometry.loc));
        }
        if let Some(i) = self.output.layer_under(Layer::Bottom, point) {
            return Some(self.layer_target(i));
        }
        if let Some(i) = self.output.layer_under(Layer::Background, point) {
            return Some(self.layer_target(i));
        }
        None
    }

    /// The windows on display.
    pub fn visible_windows(&self) -> (r: Vec<&FhtWindow>)
        requires
            self@.wf(),
        ensures
            views(r@) == self@.visible_windows(),
    {
        let mut out: Vec<&FhtWindow> = Vec::new();
        let active = &self.workspaces[self.active_idx];
        assert(self@.workspaces[self.active_idx as int] == active@);
        match &active.fullscreen {
            Some(f) => {
                out.push(&f.inner);
                assert(views(out@) =~= seq![f.inner@]);
                return out;
            },
            None => {},
        }
        let second: Option<&Workspace> = match &self.switch_animation {
            Some(s) => {
                let target = &self.workspaces[s.target_idx];
                assert(self@.workspaces[s.target_idx as int] == target@);
                match &target.fullscreen {
                    Some(f) => {
                        out.push(&f.inner);
                        assert(views(out@) =~= seq![f.inner@]);
                        return out;
                    },
                    None => {},
                }
                Some(target)
            },
            None => None,
        };
        let mut i: usize = 0;
        while i < active.windows.len()
            invariant
                i <= active.windows.len(),
                out.len() == i,
                forall|k: int| 0 <= k < i ==> (#[trigger] out@[k])@ == active.windows@[k]@,
            decreases active.windows.len() - i,
        {
            out.push(&active.windows[i]);
            i += 1;
        }
        assert(views(out@) =~= active@.windows);
        match second {
            Some(target) => {
                let mut j: usize = 0;
                while j < target.windows.len()
                    invariant
                        j <= target.windows.len(),
                        out.len() == active.windows.len() + j,
                        forall|k: int|
                            0 <= k < active.windows.len() ==> (#[trigger] out@[k])@ == active.windows@[k]@,
                        forall|k: int|
                            active.windows.len() <= k < out.len() ==> (#[trigger] out@[k])@
                                == target.windows@[k - active.windows.len()]@,
                    decreases target.windows.len() - j,
                {
                    out.push(&target.windows[j]);
                    j += 1;
                }
                assert(views(out@) =~= active@.windows + target@.windows);
            },
            None => {},
        }
        out
    }

    /// Starts a switch to the workspace at index `target_idx`. A switch to
    /// the active workspace or to an index out of range is refused.
    pub fn start_switch(&mut self, target_idx: usize, animation: Animation) -> (started: bool)
        requires
            old(self)@.wf(),
            animation@.wf(),
        ensures
            started == (target_idx < old(self)@.workspaces.len() && target_idx != old(self)@.active_idx),
            started ==> final(self)@ == (WorkspaceSetView {
                switch_animation: Some(SwitchView { target_idx, animation: animation@ }),
                ..old(self)@
            }),
            !started ==> final(self)@ == old(self)@,
            final(self)@.wf(),
    {
        if target_idx < self.workspaces.len() && target_idx != self.active_idx {
            self.switch_animation = Some(WorkspaceSwitchAnimation { target_idx, animation });
            true
        } else {
            false
        }
    }

    /// Ends the switch in flight, if there is one: the workspace switched to
    /// becomes the active one.
    pub fn finish_switch(&mut self)
        requires
            old(self)@.wf(),
        ensures
            final(self)@ == (match old(self)@.switch_animation {
                Some(s) => WorkspaceSetView {
                    active_idx: s.target_idx,
                    switch_animation: None,
                    ..old(self)@
                },
                None => old(self)@,
            }),
            final(self)@.wf(),
    {
        match self.switch_animation.take() {
            Some(s) => {
                self.active_idx = s.target_idx;
            },
            None => {},
        }
    }

    /// The window `id` that the set holds.
    pub fn window(&self, id: u64) -> (r: Option<&FhtWindow>)
        ensures
            match r {
                Some(w) => self@.window(id) == Some(w@),
                None => self@.window(id) is None,
            },
    {
        match self.workspace_index_for(id) {
            Some(j) => {
                assert(self@.workspaces[j as int] == self.workspaces[j as int]@);
                self.workspaces[j].window(id)
            },
            None => None,
        }
    }

    /// Clears the maximized and the fullscreen state of the window `id`.
    pub(crate) fn release_window(&mut self, id: u64)
        requires
            old(self)@.wf(),
            old(self)@.holds(id),
        ensures
            final(self)@ == old(self)@.with_window_replaced(
                id,
                old(self)@.window(id).unwrap().with_maximized(false).with_fullscreen(false, None),
            ),
            final(self)@.wf(),
    {
        proof {
            lemma_set_window_of_held(self@, id);
            lemma_set_window_replaced_keeps(
                self@,
                id,
                self@.window(id).unwrap().with_maximized(false).with_fullscreen(false, None),
            );
        }
        match self.workspace_index_for(id) {
            Some(j) => {
                assert(self@.workspaces[j as int] == self.workspaces[j as int]@);
                self.workspaces[j].release_window(id);
                assert(self@.workspaces =~= old(self)@.workspaces.update(
                    j as int,
                    self.workspaces[j as int]@,
                ));
            },
            None => {},
        }
    }

    /// Moves the window `id` into the fullscreen slot of the workspace that
    /// holds it, and says whether some workspace of the set holds it.
    pub fn fullscreen_window(&mut self, id: u64) -> (held: bool)
        requires
            old(self)@.wf(),
        ensures
            held == old(self)@.holds(id),
            final(self)@ == (match old(self)@.workspace_index_for(id) {
                Some(j) => old(self)@.with_workspace(j, old(self)@.workspaces[j].with_fullscreened(id)),
                None => old(self)@,
            }),
            final(self)@.wf(),
            forall|other: u64| #[trigger] final(self)@.holds(other) <==> old(self)@.holds(other),
    {
        proof {
            lemma_set_window_of_held(self@, id);
        }
        match self.workspace_index_for(id) {
            Some(j) => {
                assert(self@.workspaces[j as int] == self.workspaces[j as int]@);
                proof {
                    lemma_fullscreened_keeps(self@.workspaces[j as int], id);
                    lemma_set_with_workspace_keeps(
                        self@,
                        j as int,
                        self@.workspaces[j as int].with_fullscreened(id),
                    );
                }
                self.workspaces[j].fullscreen_window(id);
                assert(self@.workspaces =~= old(self)@.workspaces.update(
                    j as int,
                    old(self)@.workspaces[j as int].with_fullscreened(id),
                ));
                true
            },
            None => false,
        }
    }

    /// Makes the workspace at index `idx` the active one and ends a switch in
    /// flight. An index out of range is refused.
    pub fn set_active_idx(&mut self, idx: usize) -> (set: bool)
        requires
            old(self)@.wf(),
        ensures
            set == (idx < old(self)@.workspaces.len()),
            final(self)@ == if set {
                WorkspaceSetView { active_idx: idx, switch_animation: None, ..old(self)@ }
            } else {
                old(self)@
            },
            final(self)@.wf(),
    {
        if idx < self.workspaces.len() {
            self.active_idx = idx;
            self.switch_animation = None;
            true
        } else {
            false
        }
    }

    /// Gives the window `id` another geometry.
    pub(crate) fn set_window_geometry(&mut self, id: u64, geometry: Rect)
        requires
            old(self)@.wf(),
            old(self)@.holds(id),
            geometry.wf(),
        ensures
            final(self)@ == old(self)@.with_window_replaced(
                id,
                old(self)@.window(id).unwrap().with_geometry(geometry),
            ),
            final(self)@.wf(),
    {
        proof {
            lemma_set_window_of_held(self@, id);
            lemma_set_window_replaced_keeps(self@, id, self@.window(id).unwrap().with_geometry(geometry));
        }
        match self.workspace_index_for(id) {
            Some(j) => {
                assert(self@.workspaces[j as int] == self.workspaces[j as int]@);
                self.workspaces[j].set_window_geometry(id, geometry);
                assert(self@.workspaces =~= old(self)@.workspaces.update(
                    j as int,
                    self.workspaces[j as int]@,
                ));
            },
            None => {},
        }
    }

    /// Takes the window `id` out of the workspace that holds it.
    pub fn remove_window(&mut self, id: u64) -> (r: Option<FhtWindow>)
        requires
            old(self)@.wf(),
        ensures
            match r {
                Some(w) => old(self)@.window(id) == Some(w@),
                None => old(self)@.window(id) is None,
            },
            final(self)@ == old(self)@.without_window(id),
            final(self)@.wf(),
            forall|other: u64| #[trigger] final(self)@.holds(other) <==> (old(self)@.holds(other) && other != id),
    {
        proof {
            lemma_set_window_of_held(self@, id);
        }
        match self.workspace_index_for(id) {
            Some(j) => {
                assert(self@.workspaces[j as int] == self.workspaces[j as int]@);
                proof {
                    lemma_without_window_keeps(self@.workspaces[j as int], id);
                    lemma_set_with_workspace_keeps(self@, j as int, self@.workspaces[j as int].without_window(id));
                }
                let window = self.workspaces[j].remove_window(id);
                assert(self@.workspaces =~= old(self)@.workspaces.update(
                    j as int,
                    old(self)@.workspaces[j as int].without_window(id),
                ));
                window
            },
            None => None,
        }
    }

    /// Maps `window` on the workspace at index `idx`.
    pub(crate) fn map_window(&mut self, idx: usize, window: FhtWindow)
        requires
            old(self)@.wf(),
            idx < old(self)@.workspaces.len(),
            window@.wf(),
            !old(self)@.holds(window@.id),
        ensures
            final(self)@ == old(self)@.with_mapped(idx as int, window@),
            final(self)@.wf(),
    {
        proof {
            lemma_set_with_mapped_keeps(self@, idx as int, window@);
            assert(self@.workspaces[idx as int] == self.workspaces[idx as int]@);
        }
        self.workspaces[idx].map_window(window);
        assert(self@.workspaces =~= old(self)@.workspaces.update(
            idx as int,
            old(self)@.workspaces[idx as int].with_mapped(window@),
        ));
    }
}

} // verus!
