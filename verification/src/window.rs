//! Toplevel windows, as the shell sees them.

use vstd::prelude::*;
use crate::geometry::Rect;

verus! {

/// The mathematical content of a [`FhtWindow`].
pub struct WindowView {
    pub id: u64,
    pub client: u32,
    pub title: Seq<char>,
    pub app_id: Seq<char>,
    pub surface: Option<u64>,
    pub children: Seq<u64>,
    pub geometry: Rect,
    pub tiled: bool,
    pub maximized: bool,
    pub fullscreen: bool,
    pub fullscreen_output: Option<u32>,
}

impl WindowView {
    /// The geometry has no negative dimension.
    pub open spec fn wf(self) -> bool {
        self.geometry.wf()
    }

    /// `surface` is the toplevel surface or one of the surfaces below it.
    pub open spec fn has_surface(self, surface: u64) -> bool {
        self.surface == Some(surface) || self.children.contains(surface)
    }

    /// The window with its geometry replaced.
    pub open spec fn with_geometry(self, geometry: Rect) -> WindowView {
        WindowView { geometry, ..self }
    }

    /// The window with its tiled flag replaced.
    pub open spec fn with_tiled(self, tiled: bool) -> WindowView {
        WindowView { tiled, ..self }
    }

    /// The window with its maximized flag replaced.
    pub open spec fn with_maximized(self, maximized: bool) -> WindowView {
        WindowView { maximized, ..self }
    }

    /// The window with its fullscreen flag and fullscreen output replaced.
    pub open spec fn with_fullscreen(self, fullscreen: bool, output: Option<u32>) -> WindowView {
        WindowView { fullscreen, fullscreen_output: output, ..self }
    }
}

/// A mapped or pending toplevel.
///
/// A window is known by its `id`; two values with the same `id` stand for the
/// same client surface.
#[derive(Debug)]
pub struct FhtWindow {
    /// Stable identity of the window.
    pub id: u64,
    /// The client that owns the window's surface.
    pub client: u32,
    pub title: String,
    pub app_id: String,
    /// The toplevel surface, while it is alive.
    pub surface: Option<u64>,
    /// Subsurfaces and popups below the toplevel surface.
    pub children: Vec<u64>,
    /// Geometry in the global compositor space.
    pub geometry: Rect,
    pub tiled: bool,
    pub maximized: bool,
    pub fullscreen: bool,
    /// The client's output object that the fullscreen state refers to.
    pub fullscreen_output: Option<u32>,
}

impl View for FhtWindow {
    type V = WindowView;

    open spec fn view(&self) -> WindowView {
        WindowView {
            id: self.id,
            client: self.client,
            title: self.title@,
            app_id: self.app_id@,
            surface: self.surface,
            children: self.children@,
            geometry: self.geometry,
            tiled: self.tiled,
            maximized: self.maximized,
            fullscreen: self.fullscreen,
            fullscreen_output: self.fullscreen_output,
        }
    }
}

impl FhtWindow {
    /// A tiled window with no surface tree below its toplevel and no state set.
    pub fn new(id: u64, client: u32, title: String, app_id: String, surface: u64, geometry: Rect) -> (w:
        FhtWindow)
        ensures
            w@ == (WindowView {
                id,
                client,
                title: title@,
                app_id: app_id@,
                surface: Some(surface),
                children: Seq::<u64>::empty(),
                geometry,
                tiled: true,
                maximized: false,
                fullscreen: false,
                fullscreen_output: None,
            }),
    {
        FhtWindow {
            id,
            client,
            title,
            app_id,
            surface: Some(surface),
            children: Vec::new(),
            geometry,
            tiled: true,
            maximized: false,
            fullscreen: false,
            fullscreen_output: None,
        }
    }

    /// Whether the window is well formed.
    pub fn is_wf(&self) -> (b: bool)
        ensures
            b == self@.wf(),
    {
        self.geometry.is_wf()
    }

    pub fn title(&self) -> (t: &String)
        ensures
            t@ == self@.title,
    {
        &self.title
    }

    pub fn app_id(&self) -> (a: &String)
        ensures
            a@ == self@.app_id,
    {
        &self.app_id
    }

    /// The geometry of the window in the global space.
    pub fn global_geometry(&self) -> (g: Rect)
        ensures
            g == self@.geometry,
    {
        self.geometry
    }

    pub fn is_maximized(&self) -> (b: bool)
        ensures
            b == self@.maximized,
    {
        self.maximized
    }

    pub fn is_fullscreen(&self) -> (b: bool)
        ensures
            b == self@.fullscreen,
    {
        self.fullscreen
    }

    /// Sets whether the window is tiled; a window that is not tiled floats.
    pub fn set_tiled(&mut self, tiled: bool)
        ensures
            final(self)@ == old(self)@.with_tiled(tiled),
    {
        self.tiled = tiled;
    }

    /// Sets whether the window is maximized.
    pub fn set_maximized(&mut self, maximized: bool)
        ensures
            final(self)@ == old(self)@.with_maximized(maximized),
    {
        self.maximized = maximized;
    }

    /// Sets the fullscreen flag together with the output object it refers to.
    pub fn set_fullscreen(&mut self, fullscreen: bool, output: Option<u32>)
        ensures
            final(self)@ == old(self)@.with_fullscreen(fullscreen, output),
    {
        self.fullscreen = fullscreen;
        self.fullscreen_output = output;
    }

    /// Whether `surface` is the toplevel surface or one of the surfaces below it.
    pub fn has_surface(&self, surface: u64) -> (b: bool)
        ensures
            b == self@.has_surface(surface),
    {
        match self.surface {
            Some(s) => {
                if s == surface {
                    return true;
                }
            },
            None => {},
        }
        let mut i: usize = 0;
        while i < self.children.len()
            invariant
                i <= self.children.len(),
                forall|k: int| 0 <= k < i ==> self.children@[k] != surface,
            decreases self.children.len() - i,
        {
            if self.children[i] == surface {
                return true;
            }
            i += 1;
        }
        false
    }
}

} // verus!
