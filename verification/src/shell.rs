//! The decisions of the shell: what is under the pointer, where a surface or
//! a window shows, how a pending window is mapped, where a popup may go, and
//! whether a window may start to follow the pointer.

use vstd::prelude::*;
use crate::focus::FocusTarget;
use crate::geometry::{Point, Rect};
use crate::grabs::{GrabKind, MoveSurfaceGrab, PointerGrab};
use crate::output::{Output, OutputView};
use crate::popup::Popup;
use crate::rules::{MapSettingsView, WindowMapSettings};
use crate::search::{
    first_where, is_first_where, lemma_first_where, lemma_first_where_found, lemma_first_where_none,
    none_where, views,
};
use crate::state::{
    lemma_fht_window_of_held, lemma_map_window_keeps_wf, lemma_output_index,
    lemma_window_replaced_keeps_wf, Fht, FhtView, PendingLayerView, PendingWindow, PendingWindowView,
    State,
};
use crate::window::{FhtWindow, WindowView};
use crate::workspaces::{lemma_set_window_of_held, Workspace, WorkspaceSetView, WorkspaceView};

verus! {

impl FhtView {
    /// What is under `point` on the focused output, with the origin of its
    /// coordinate system; nothing where no output is focused.
    pub open spec fn focus_target_under(self, point: Point) -> Option<(FocusTarget, Point)> {
        match self.focus_state.output {
            Some(o) => self.wsets[self.output_index(o).unwrap()].focus_target_under(point),
            None => None,
        }
    }

    /// The index of the first workspace set with a window that has `surface`.
    pub open spec fn set_with_surface(self, surface: u64) -> Option<int> {
        first_where(self.wsets, |s: WorkspaceSetView| s.find_window(surface) is Some)
    }

    /// The window that `surface` belongs to.
    pub open spec fn find_window(self, surface: u64) -> Option<WindowView> {
        match self.set_with_surface(surface) {
            Some(i) => self.wsets[i].find_window(surface),
            None => None,
        }
    }

    /// The window that `surface` belongs to, with the output it is mapped on.
    pub open spec fn find_window_and_output(self, surface: u64) -> Option<(WindowView, OutputView)> {
        match self.set_with_surface(surface) {
            Some(i) => Some((self.wsets[i].find_window(surface).unwrap(), self.wsets[i].output)),
            None => None,
        }
    }

    /// Where the window `id` is held: the index of its workspace set and the
    /// index of its workspace in that set.
    pub open spec fn site_of(self, id: u64) -> Option<(int, int)> {
        match self.set_index_for(id) {
            Some(i) => Some((i, self.wsets[i].workspace_index_for(id).unwrap())),
            None => None,
        }
    }

    /// The first output on which `surface` shows: an output with a layer
    /// surface that has it, else the output that a pending layer surface
    /// with it waits for, else an output whose active workspace has a window
    /// with it.
    pub open spec fn visible_output_for_surface(self, surface: u64) -> Option<OutputView> {
        match first_where(self.wsets, |s: WorkspaceSetView| s.output.has_layer_for_surface(surface)) {
            Some(i) => Some(self.wsets[i].output),
            None => match first_where(
                self.pending_layers,
                |p: PendingLayerView| p.layer.has_surface(surface),
            ) {
                Some(p) => Some(self.wsets[self.output_index(self.pending_layers[p].output).unwrap()].output),
                None => match first_where(
                    self.wsets,
                    |s: WorkspaceSetView| s.active().has_surface(surface),
                ) {
                    Some(i) => Some(self.wsets[i].output),
                    None => None,
                },
            },
        }
    }

    /// The outputs among the first `n` that a rectangle overlaps, in order.
    pub open spec fn outputs_overlapping(self, geometry: Rect, n: nat) -> Seq<OutputView>
        decreases n,
    {
        if n == 0 {
            Seq::empty()
        } else {
            let rest = self.outputs_overlapping(geometry, (n - 1) as nat);
            let output = self.wsets[n - 1].output;
            if output.geometry.spec_overlaps(geometry) {
                rest.push(output)
            } else {
                rest
            }
        }
    }

    /// Every output on which the window shows: those that its geometry
    /// overlaps.
    pub open spec fn visible_outputs_for_window(self, window: WindowView) -> Seq<OutputView> {
        self.outputs_overlapping(window.geometry, self.wsets.len())
    }

    /// The windows that show on the output `id`.
    pub open spec fn visible_windows_for_output(self, id: u32) -> Seq<WindowView> {
        match self.output_index(id) {
            Some(i) => self.wsets[i].visible_windows(),
            None => Seq::empty(),
        }
    }

    /// The rectangle that a popup of `window` is to be fitted into, in the
    /// coordinate space of the popup's parent: the union of the outputs on
    /// which the window shows, moved back by the popup's offset from its
    /// toplevel and by the window's location. There is none where the window
    /// shows on no output.
    pub open spec fn popup_target_for(self, window: WindowView, toplevel_coords: Point) -> Option<Rect> {
        let outputs = self.visible_outputs_for_window(window);
        if outputs.len() == 0 {
            None
        } else {
            Some(
                union_of(outputs, outputs.len()).spec_translate_back(toplevel_coords).spec_translate_back(
                    window.geometry.loc,
                ),
            )
        }
    }

    /// The rectangle that `popup` is to be fitted into, in the coordinate
    /// space of its parent. There is none where the popup has no root, where
    /// its root belongs to no window, and where that window shows on no
    /// output.
    pub open spec fn popup_target(self, popup: Popup) -> Option<Rect> {
        match popup.root {
            Some(root) => match self.find_window(root) {
                Some(window) => self.popup_target_for(window, popup.toplevel_coords),
                None => None,
            },
            None => None,
        }
    }

    /// A request to move the window `id` interactively is granted: the
    /// pointer is grabbed with the serial of the request, the window is held
    /// and has a surface, and the grab started on a surface of the window's
    /// client.
    pub open spec fn move_request_granted(self, id: u64, serial: u32) -> bool {
        &&& self.pointer.grab matches Some(grab)
        &&& grab.serial == serial
        &&& self.window(id) matches Some(window)
        &&& window.surface is Some
        &&& grab.start_data.focus matches Some(focus)
        &&& focus.client == window.client
    }

    /// The move grab that a granted request installs. A window that was
    /// maximized or fullscreen is anchored at the pointer; any other window
    /// at its own location.
    pub open spec fn move_grab(self, id: u64) -> MoveSurfaceGrab {
        let window = self.window(id).unwrap();
        MoveSurfaceGrab {
            start_data: self.pointer.grab.unwrap().start_data,
            window: id,
            initial_window_location: if window.maximized || window.fullscreen {
                self.pointer.location
            } else {
                window.geometry.loc
            },
        }
    }

    /// What a request to move the window `id` asks of the caller: nothing
    /// where it is not granted; else to install the move grab, and to send a
    /// configure where the window was maximized or fullscreen.
    pub open spec fn move_request_outcome(self, id: u64, serial: u32) -> Option<MoveRequestOutcome> {
        if self.move_request_granted(id, serial) {
            let window = self.window(id).unwrap();
            Some(
                MoveRequestOutcome {
                    grab: self.move_grab(id),
                    configure: window.maximized || window.fullscreen,
                },
            )
        } else {
            None
        }
    }

    /// The state after a request to move the window `id`: unchanged where
    /// the request is not granted; else the window is neither maximized nor
    /// fullscreen, and the move grab owns the pointer under the serial of
    /// the request.
    pub open spec fn after_move_request(self, id: u64, serial: u32) -> FhtView {
        if self.move_request_granted(id, serial) {
            let window = self.window(id).unwrap();
            let grab = self.move_grab(id);
            self.with_window_replaced(
                id,
                window.with_maximized(false).with_fullscreen(false, None),
            ).with_pointer(
                self.pointer.with_grab(
                    Some(
                        PointerGrab {
                            serial,
                            start_data: grab.start_data,
                            kind: GrabKind::Move {
                                window: id,
                                initial_window_location: grab.initial_window_location,
                            },
                        },
                    ),
                ),
            )
        } else {
            self
        }
    }
}

/// Mapping a window that is not pending changes nothing.
pub proof fn lemma_map_absent_window_changes_nothing(s: FhtView, id: u64, settings: MapSettingsView)
    requires
        !s.is_pending(id),
    ensures
        s.map_window_with(id, settings) == s,
        s.map_window(id) == s,
{
    let p = |w: PendingWindowView| w.window.id == id;
    lemma_first_where(s.pending_windows, p);
    if s.pending_index(id) is Some {
        let k = s.pending_index(id).unwrap();
        assert(s.pending_windows[k].window.id == id);
    }
    let q = |w: PendingWindowView| w.window.id == id;
    lemma_first_where(s.pending_windows, q);
}

/// The union of the geometries of the first `n` of `outputs`, merged from
/// the first on.
pub open spec fn union_of(outputs: Seq<OutputView>, n: nat) -> Rect
    decreases n,
{
    if n <= 1 {
        outputs[0].geometry
    } else {
        union_of(outputs, (n - 1) as nat).spec_merge(outputs[n - 1].geometry)
    }
}

/// What a granted request to move a window asks of the caller.
#[derive(Clone, Copy, Debug, PartialEq, Eq, Structural)]
pub struct MoveRequestOutcome {
    /// The grab to install on the pointer, with the focus cleared.
    pub grab: MoveSurfaceGrab,
    /// Whether the window's state changed, so that it is owed a configure.
    pub configure: bool,
}

impl Fht {
    /// The focus target under `point`, with the origin of its coordinate
    /// system in the global space.
    ///
    /// On the focused output the surfaces are asked in this order: overlay
    /// layer surfaces, the fullscreen window of the active workspace, top
    /// layer surfaces, the windows of the active workspace, bottom layer
    /// surfaces, background layer surfaces.
    pub fn focus_target_under(&self, point: Point) -> (r: Option<(FocusTarget, Point)>)
        requires
            self@.wf(),
        ensures
            r == self@.focus_target_under(point),
    {
        let output = match self.focus_state.output {
            Some(o) => o,
            None => {
                return None;
            },
        };
        match self.output_index(output) {
            Some(i) => {
                assert(self@.wsets[i as int] == self.wsets[i as int]@);
                self.wsets[i].focus_target_under(point)
            },
            None => {
                // The focused output of a well-formed state exists.
                assert(false);
                None
            },
        }
    }

    /// The index of the first workspace set with a window that has `surface`.
    fn set_with_surface(&self, surface: u64) -> (r: Option<usize>)
        ensures
            match r {
                Some(i) => self@.set_with_surface(surface) == Some(i as int) && i < self@.wsets.len()
                    && self@.wsets[i as int].find_window(surface) is Some,
                None => self@.set_with_surface(surface) is None,
            },
    {
        let ghost p = |s: WorkspaceSetView| s.find_window(surface) is Some;
        let mut i: usize = 0;
        while i < self.wsets.len()
            invariant
                i <= self.wsets.len(),
                p == (|s: WorkspaceSetView| s.find_window(surface) is Some),
                forall|k: int| 0 <= k < i ==> !p(#[trigger] self@.wsets[k]),
            decreases self.wsets.len() - i,
        {
            assert(self@.wsets[i as int] == self.wsets[i as int]@);
            if self.wsets[i].find_window(surface).is_some() {
                proof {
                    assert(is_first_where(self@.wsets, p, i as int));
                    lemma_first_where_found(self@.wsets, p, i as int);
                }
                return Some(i);
            }
            i += 1;
        }
        proof {
            assert(none_where(self@.wsets, p));
            lemma_first_where_none(self@.wsets, p);
        }
        None
    }

    /// The window that `surface` belongs to.
    pub fn find_window(&self, surface: u64) -> (r: Option<&FhtWindow>)
        ensures
            match r {
                Some(w) => self@.find_window(surface) == Some(w@),
                None => self@.find_window(surface) is None,
            },
    {
        match self.set_with_surface(surface) {
            Some(i) => {
                assert(self@.wsets[i as int] == self.wsets[i as int]@);
                self.wsets[i].find_window(surface)
            },
            None => None,
        }
    }

    /// The window that `surface` belongs to, and the output the window is
    /// mapped on.
    pub fn find_window_and_output(&self, surface: u64) -> (r: Option<(&FhtWindow, &Output)>)
        ensures
            match r {
                Some((w, o)) => self@.find_window_and_output(surface) == Some((w@, o@)),
                None => self@.find_window_and_output(surface) is None,
            },
    {
        match self.set_with_surface(surface) {
            Some(i) => {
                assert(self@.wsets[i as int] == self.wsets[i as int]@);
                match self.wsets[i].find_window(surface) {
                    Some(w) => Some((w, &self.wsets[i].output)),
                    None => None,
                }
            },
            None => None,
        }
    }

    /// Where the window `id` is held: the index of its workspace set and the
    /// index of its workspace in that set.
    pub fn site_of(&self, id: u64) -> (r: Option<(usize, usize)>)
        ensures
            match r {
                Some((i, j)) => self@.site_of(id) == Some((i as int, j as int)) && i < self@.wsets.len()
                    && j < self@.wsets[i as int].workspaces.len(),
                None => self@.site_of(id) is None,
            },
    {
        let ghost p = |s: WorkspaceSetView| s.holds(id);
        let mut i: usize = 0;
        while i < self.wsets.len()
            invariant
                i <= self.wsets.len(),
                p == (|s: WorkspaceSetView| s.holds(id)),
                forall|k: int| 0 <= k < i ==> !p(#[trigger] self@.wsets[k]),
            decreases self.wsets.len() - i,
        {
            assert(self@.wsets[i as int] == self.wsets[i as int]@);
            match self.wsets[i].workspace_index_for(id) {
                Some(j) => {
                    proof {
                        lemma_first_where(
                            self@.wsets[i as int].workspaces,
                            |ws: WorkspaceView| ws.holds(id),
                        );
                        assert(self@.wsets[i as int].workspaces[j as int].holds(id));
                        assert(is_first_where(self@.wsets, p, i as int));
                        lemma_first_where_found(self@.wsets, p, i as int);
                    }
                    return Some((i, j));
                },
                None => {
                    proof {
                        lemma_first_where(
                            self@.wsets[i as int].workspaces,
                            |ws: WorkspaceView| ws.holds(id),
                        );
                        if self@.wsets[i as int].holds(id) {
                            let j = choose|j: int|
                                0 <= j < self@.wsets[i as int].workspaces.len()
                                    && #[trigger] self@.wsets[i as int].workspaces[j].holds(id);
                            assert(false);
                        }
                    }
                },
            }
            i += 1;
        }
        proof {
            assert(none_where(self@.wsets, p));
            lemma_first_where_none(self@.wsets, p);
        }
        None
    }

    /// The workspace that holds the window `id`.
    pub fn ws_for(&self, id: u64) -> (r: Option<&Workspace>)
        ensures
            match r {
                Some(ws) => self@.site_of(id) matches Some((i, j)) && ws@ == self@.wsets[i].workspaces[j],
                None => self@.site_of(id) is None,
            },
    {
        match self.site_of(id) {
            Some((i, j)) => {
                assert(self@.wsets[i as int] == self.wsets[i as int]@);
                assert(self@.wsets[i as int].workspaces[j as int] == self.wsets[i as int].workspaces[j as int]@);
                Some(&self.wsets[i].workspaces[j])
            },
            None => None,
        }
    }

    /// The workspace that holds the window `id`, to be changed in place.
    pub fn ws_mut_for(&mut self, id: u64) -> (r: Option<&mut Workspace>)
        ensures
            match r {
                Some(ws) => old(self)@.site_of(id) matches Some((i, j)) && ws@ == old(self)@.wsets[i].workspaces[j]
                    && final(self)@ =~~= old(self)@.with_set(
                    i,
                    old(self)@.wsets[i].with_workspace(j, final(ws)@),
                ),
                None => old(self)@.site_of(id) is None && final(self)@ == old(self)@,
            },
    {
        match self.site_of(id) {
            Some((i, j)) => Some(&mut self.wsets[i].workspaces[j]),
            None => None,
        }
    }

    /// Moves the window `id` into the fullscreen slot of the workspace that
    /// holds it, and says whether some workspace holds it.
    pub fn fullscreen_window(&mut self, id: u64) -> (held: bool)
        requires
            old(self)@.wf(),
        ensures
            held == old(self)@.holds(id),
            final(self)@ == (match old(self)@.site_of(id) {
                Some((i, j)) => old(self)@.with_set(
                    i,
                    old(self)@.wsets[i].with_workspace(
                        j,
                        old(self)@.wsets[i].workspaces[j].with_fullscreened(id),
                    ),
                ),
                None => old(self)@,
            }),
            final(self)@.wf(),
    {
        proof {
            lemma_fht_window_of_held(self@, id);
        }
        match self.site_of(id) {
            Some((i, j)) => {
                let ghost before = self@;
                assert(before.wsets[i as int] == self.wsets[i as int]@);
                proof {
                    lemma_set_window_of_held(before.wsets[i as int], id);
                }
                self.wsets[i].fullscreen_window(id);
                proof {
                    crate::state::lemma_with_set_keeps_wf(before, i as int, self.wsets[i as int]@);
                    assert(self@.wsets =~= before.wsets.update(i as int, self.wsets[i as int]@));
                }
                true
            },
            None => false,
        }
    }

    /// The first output on which `surface` shows.
    ///
    /// Layer surfaces are asked first, then pending layer surfaces, then the
    /// windows of the active workspaces.
    pub fn visible_output_for_surface(&self, surface: u64) -> (r: Option<&Output>)
        requires
            self@.wf(),
        ensures
            match r {
                Some(o) => self@.visible_output_for_surface(surface) == Some(o@),
                None => self@.visible_output_for_surface(surface) is None,
            },
    {
        let ghost on_layer = |s: WorkspaceSetView| s.output.has_layer_for_surface(surface);
        let mut i: usize = 0;
        while i < self.wsets.len()
            invariant
                i <= self.wsets.len(),
                on_layer == (|s: WorkspaceSetView| s.output.has_layer_for_surface(surface)),
                forall|k: int| 0 <= k < i ==> !on_layer(#[trigger] self@.wsets[k]),
            decreases self.wsets.len() - i,
        {
            assert(self@.wsets[i as int] == self.wsets[i as int]@);
            if self.wsets[i].output.has_layer_for_surface(surface) {
                proof {
                    assert(is_first_where(self@.wsets, on_layer, i as int));
                    lemma_first_where_found(self@.wsets, on_layer, i as int);
                }
                return Some(&self.wsets[i].output);
            }
            i += 1;
        }
        proof {
            assert(none_where(self@.wsets, on_layer));
            lemma_first_where_none(self@.wsets, on_layer);
        }
        let ghost pending = |p: PendingLayerView| p.layer.has_surface(surface);
        let mut p: usize = 0;
        while p < self.pending_layers.len()
            invariant
                p <= self.pending_layers.len(),
                self@.wf(),
                on_layer == (|s: WorkspaceSetView| s.output.has_layer_for_surface(surface)),
                first_where(self@.wsets, on_layer) is None,
                pending == (|p: PendingLayerView| p.layer.has_surface(surface)),
                forall|k: int| 0 <= k < p ==> !pending(#[trigger] self@.pending_layers[k]),
            decreases self.pending_layers.len() - p,
        {
            assert(self@.pending_layers[p as int] == self.pending_layers[p as int]@);
            if self.pending_layers[p].layer.has_surface(surface) {
                proof {
                    assert(is_first_where(self@.pending_layers, pending, p as int));
                    lemma_first_where_found(self@.pending_layers, pending, p as int);
                    assert(self@.has_output(self@.pending_layers[p as int].output));
                }
                return match self.output_index(self.pending_layers[p].output) {
                    Some(o) => {
                        assert(self@.wsets[o as int] == self.wsets[o as int]@);
                        Some(&self.wsets[o].output)
                    },
                    None => {
                        // A pending layer surface waits for an output that
                        // exists.
                        assert(false);
                        None
                    },
                };
            }
            p += 1;
        }
        proof {
            assert(none_where(self@.pending_layers, pending));
            lemma_first_where_none(self@.pending_layers, pending);
        }
        let ghost on_window = |s: WorkspaceSetView| s.active().has_surface(surface);
        let mut j: usize = 0;
        while j < self.wsets.len()
            invariant
                j <= self.wsets.len(),
                self@.wf(),
                on_layer == (|s: WorkspaceSetView| s.output.has_layer_for_surface(surface)),
                first_where(self@.wsets, on_layer) is None,
                pending == (|p: PendingLayerView| p.layer.has_surface(surface)),
                first_where(self@.pending_layers, pending) is None,
                on_window == (|s: WorkspaceSetView| s.active().has_surface(surface)),
                forall|k: int| 0 <= k < j ==> !on_window(#[trigger] self@.wsets[k]),
            decreases self.wsets.len() - j,
        {
            assert(self@.wsets[j as int] == self.wsets[j as int]@);
            assert(self@.wsets[j as int].wf());
            if self.wsets[j].active().find_window(surface).is_some() {
                proof {
                    assert(is_first_where(self@.wsets, on_window, j as int));
                    lemma_first_where_found(self@.wsets, on_window, j as int);
                }
                return Some(&self.wsets[j].output);
            }
            j += 1;
        }
        proof {
            assert(none_where(self@.wsets, on_window));
            lemma_first_where_none(self@.wsets, on_window);
        }
        None
    }

    /// Every output on which `window`, with its subsurfaces, shows.
    pub fn visible_outputs_for_window(&self, window: &FhtWindow) -> (r: Vec<&Output>)
        ensures
            views(r@) == self@.visible_outputs_for_window(window@),
    {
        let geometry = window.global_geometry();
        let mut outputs: Vec<&Output> = Vec::new();
        let mut i: usize = 0;
        assert(views(outputs@) =~= self@.outputs_overlapping(geometry, 0));
        while i < self.wsets.len()
            invariant
                i <= self.wsets.len(),
                views(outputs@) == self@.outputs_overlapping(geometry, i as nat),
            decreases self.wsets.len() - i,
        {
            assert(self@.wsets[i as int] == self.wsets[i as int]@);
            let ghost before = views(outputs@);
            if self.wsets[i].output.geometry.intersection(geometry).is_some() {
                outputs.push(&self.wsets[i].output);
                assert(views(outputs@) =~= before.push(self@.wsets[i as int].output));
            }
            i += 1;
        }
        outputs
    }

    /// Every window that shows on the output `id`: none where there is no
    /// such output.
    pub fn visible_windows_for_output(&self, id: u32) -> (r: Vec<&FhtWindow>)
        requires
            self@.wf(),
        ensures
            views(r@) == self@.visible_windows_for_output(id),
    {
        match self.output_index(id) {
            Some(i) => {
                assert(self@.wsets[i as int] == self.wsets[i as int]@);
                self.wsets[i].visible_windows()
            },
            None => {
                let none: Vec<&FhtWindow> = Vec::new();
                assert(views(none@) =~= Seq::<WindowView>::empty());
                none
            },
        }
    }

    /// The rectangle that a popup of `window`, at the offset
    /// `toplevel_coords` from its toplevel, is to be fitted into.
    pub fn popup_target_for(&self, window: &FhtWindow, toplevel_coords: Point) -> (r: Option<Rect>)
        ensures
            r == self@.popup_target_for(window@, toplevel_coords),
    {
        let outputs = self.visible_outputs_for_window(window);
        if outputs.len() == 0 {
            return None;
        }
        let ghost all = views(outputs@);
        let mut geometry = outputs[0].geometry();
        assert(all[0] == outputs@[0]@);
        let mut i: usize = 1;
        while i < outputs.len()
            invariant
                1 <= i <= outputs.len(),
                all == views(outputs@),
                geometry == union_of(all, i as nat),
            decreases outputs.len() - i,
        {
            assert(all[i as int] == outputs@[i as int]@);
            geometry = geometry.merge(outputs[i].geometry());
            i += 1;
        }
        // The target is relative to the parent, as the protocol asks.
        Some(geometry.translate_back(toplevel_coords).translate_back(window.global_geometry().loc))
    }

    /// The rectangle that `popup` is to be fitted into so that it does not
    /// leave the outputs on which its window shows, in the coordinate space
    /// of the popup's parent.
    ///
    /// There is none, and the popup is left alone, where the popup has no
    /// root, where its root belongs to no window, and where that window shows
    /// on no output.
    pub fn unconstrain_popup(&self, popup: &Popup) -> (r: Option<Rect>)
        ensures
            r == self@.popup_target(*popup),
    {
        let root = match popup.root {
            Some(root) => root,
            None => {
                return None;
            },
        };
        match self.find_window(root) {
            Some(window) => self.popup_target_for(window, popup.toplevel_coords),
            None => None,
        }
    }

}

impl State {
    /// Processes a request to move the window `id` with the pointer.
    ///
    /// The request is granted where the pointer is grabbed with `serial`, the
    /// window is held and has a surface, and the grab started on a surface of
    /// the window's client. Then the window leaves the maximized and the
    /// fullscreen state, and the move grab takes the pointer.
    pub fn handle_move_request(&mut self, id: u64, serial: u32) -> (r: Option<MoveRequestOutcome>)
        requires
            old(self)@.wf(),
        ensures
            r == old(self)@.move_request_outcome(id, serial),
            final(self)@ == old(self)@.after_move_request(id, serial),
            final(self)@.wf(),
    {
        proof {
            lemma_fht_window_of_held(self@, id);
        }
        if !self.fht.pointer.has_grab(serial) {
            return None;
        }
        let start_data = match self.fht.pointer.grab_start_data() {
            Some(start_data) => start_data,
            None => {
                return None;
            },
        };
        let (i, _) = match self.fht.site_of(id) {
            Some(site) => site,
            None => {
                return None;
            },
        };
        assert(self@.wsets[i as int] == self.fht.wsets[i as int]@);
        proof {
            lemma_set_window_of_held(self@.wsets[i as int], id);
        }
        let window = match self.fht.wsets[i].window(id) {
            Some(window) => window,
            None => {
                return None;
            },
        };
        if window.surface.is_none() {
            return None;
        }
        // Make sure the grab started on the client that owns the window.
        match start_data.focus {
            Some(focus) => {
                if focus.client != window.client {
                    return None;
                }
            },
            None => {
                return None;
            },
        }
        let released = window.is_maximized() || window.is_fullscreen();
        // A window that leaves the maximized or the fullscreen state changes
        // its size: it is anchored at the pointer, not at its old location.
        let initial_window_location = if released {
            self.fht.pointer.location
        } else {
            window.global_geometry().loc
        };
        let ghost before = self@;
        let ghost replaced = before.window(id).unwrap().with_maximized(false).with_fullscreen(false, None);
        proof {
            lemma_window_replaced_keeps_wf(before, id, replaced);
        }
        self.fht.wsets[i].release_window(id);
        self.fht.pointer.grab = Some(
            PointerGrab {
                serial,
                start_data,
                kind: GrabKind::Move { window: id, initial_window_location },
            },
        );
        proof {
            assert(self@.wsets =~= before.with_window_replaced(id, replaced).wsets);
        }
        Some(
            MoveRequestOutcome {
                grab: MoveSurfaceGrab { start_data, window: id, initial_window_location },
                configure: released,
            },
        )
    }

}

impl Fht {
    /// The pending window `id` is mapped with `settings`.
    ///
    /// A window that is not pending is not mapped, and nothing changes.
    pub fn map_window_with(&mut self, id: u64, settings: &WindowMapSettings)
        requires
            old(self)@.wf(),
        ensures
            final(self)@ == old(self)@.map_window_with(id, settings@),
            final(self)@.wf(),
    {
        proof {
            lemma_map_window_keeps_wf(self@, id, settings@);
        }
        let idx = match self.pending_index(id) {
            Some(idx) => idx,
            None => {
                return ;
            },
        };
        let ghost before = self@;
        let ghost pending = before.pending_windows[idx as int];
        proof {
            lemma_first_where(
                before.pending_windows,
                |p: PendingWindowView| p.window.id == id,
            );
            assert(pending.window.id == id);
            assert(pending.window.wf());
            assert(before.has_output(pending.output));
            assert(!before.holds(id));
            lemma_output_index(before, pending.output);
        }
        let PendingWindow { window, output } = self.pending_windows.remove(idx);
        let mut window = window;
        assert(self@.pending_windows =~= before.pending_windows.remove(idx as int));
        assert(window@ == pending.window && output == pending.output);
        assert(self@.wsets == before.wsets);
        window.set_tiled(!settings.floating);

        let proposed = match self.output_index(output) {
            Some(i) => i,
            None => {
                // A pending window waits for an output that exists.
                assert(false);
                return ;
            },
        };
        assert(self@.wsets[proposed as int] == self.wsets[proposed as int]@);
        let wl_output = self.wsets[proposed].output.last_client_output(window.client);
        window.set_fullscreen(settings.fullscreen, wl_output);
        assert(window@ == FhtView::prepared(pending.window, settings@, wl_output));

        let target = match &settings.output {
            Some(name) => match self.output_named(name) {
                Some(t) => t,
                None => proposed,
            },
            None => proposed,
        };
        assert(target as int == before.target_output(proposed as int, settings@));
        assert(self@.wsets[target as int] == self.wsets[target as int]@);
        assert(before.wsets[target as int].wf());
        assert(!before.wsets[target as int].holds(id));
        let count = self.wsets[target].workspaces.len();
        let dest = match settings.workspace {
            Some(i) => if i < count {
                i
            } else {
                count - 1
            },
            None => self.wsets[target].active_idx,
        };
        assert(dest as int == before.wsets[target as int].destination(settings@.workspace));
        self.wsets[target].map_window(dest, window);
        if self.focus_new_windows {
            self.focus_state.focus_target = Some(FocusTarget::Window(id));
        }
        proof {
            let after = before.map_window_with(id, settings@);
            assert(self@.wsets =~= after.wsets);
            assert(self@.pending_windows =~= after.pending_windows);
            assert(self@.pending_layers =~= after.pending_layers);
            assert(self@.focus_state == after.focus_state);
        }
    }

    /// Maps the pending window `id`, if it is pending.
    ///
    /// The window is mapped with the initial settings: tiled, not
    /// fullscreen, on the active workspace of the output proposed for it.
    pub fn map_window(&mut self, id: u64)
        requires
            old(self)@.wf(),
        ensures
            final(self)@ == old(self)@.map_window(id),
            final(self)@.wf(),
    {
        let settings = WindowMapSettings::default();
        self.map_window_with(id, &settings);
    }
}

} // verus!
