//! Outputs and the layer-shell surfaces mapped on them.

use vstd::prelude::*;
use crate::geometry::{Point, Rect};
use crate::search::{
    is_last_where, last_where, lemma_last_where_found, lemma_last_where_none, none_where, views,
};

verus! {

/// The four layers of the layer shell, from the lowest to the highest.
#[derive(Clone, Copy, Debug, PartialEq, Eq, Structural)]
pub enum Layer {
    Background,
    Bottom,
    Top,
    Overlay,
}

/// The mathematical content of a [`LayerSurface`].
pub struct LayerSurfaceView {
    pub id: u64,
    pub layer: Layer,
    pub geometry: Rect,
    pub bbox_with_popups: Rect,
    pub surfaces: Seq<u64>,
}

impl LayerSurfaceView {
    /// Neither bounding box has a negative dimension.
    pub open spec fn wf(self) -> bool {
        self.geometry.wf() && self.bbox_with_popups.wf()
    }

    /// The surface sits on `layer` and its bounding box, popups included,
    /// contains `point`.
    pub open spec fn is_under(self, layer: Layer, point: Point) -> bool {
        self.layer == layer && self.bbox_with_popups.spec_contains(point)
    }

    /// `surface` belongs to the surface tree of this layer surface.
    pub open spec fn has_surface(self, surface: u64) -> bool {
        self.surfaces.contains(surface)
    }
}

/// A layer-shell surface, placed on its output.
#[derive(Debug)]
pub struct LayerSurface {
    /// Stable identity of the layer surface.
    pub id: u64,
    pub layer: Layer,
    /// Bounding box of the surface, in the coordinate space of its output.
    pub geometry: Rect,
    /// Bounding box of the surface and its popups, in the same space.
    pub bbox_with_popups: Rect,
    /// Every surface of the tree: the layer surface itself, its subsurfaces
    /// and its popups.
    pub surfaces: Vec<u64>,
}

impl View for LayerSurface {
    type V = LayerSurfaceView;

    open spec fn view(&self) -> LayerSurfaceView {
        LayerSurfaceView {
            id: self.id,
            layer: self.layer,
            geometry: self.geometry,
            bbox_with_popups: self.bbox_with_popups,
            surfaces: self.surfaces@,
        }
    }
}

impl LayerSurface {
    /// Whether both bounding boxes are well formed.
    pub fn is_wf(&self) -> (b: bool)
        ensures
            b == self@.wf(),
    {
        self.geometry.is_wf() && self.bbox_with_popups.is_wf()
    }

    /// Whether `surface` belongs to the surface tree of this layer surface.
    pub fn has_surface(&self, surface: u64) -> (b: bool)
        ensures
            b == self@.has_surface(surface),
    {
        let mut i: usize = 0;
        while i < self.surfaces.len()
            invariant
                i <= self.surfaces.len(),
                forall|k: int| 0 <= k < i ==> self.surfaces@[k] != surface,
            decreases self.surfaces.len() - i,
        {
            if self.surfaces[i] == surface {
                return true;
            }
            i += 1;
        }
        false
    }
}

/// An output object that one client has bound.
#[derive(Clone, Copy, Debug, PartialEq, Eq, Structural)]
pub struct ClientOutput {
    pub client: u32,
    pub object: u32,
}

/// The mathematical content of an [`Output`].
pub struct OutputView {
    pub id: u32,
    pub name: Seq<char>,
    pub geometry: Rect,
    pub layers: Seq<LayerSurfaceView>,
    pub client_outputs: Seq<ClientOutput>,
}

impl OutputView {
    /// The geometry is non-degenerate and every layer surface is well formed.
    pub open spec fn wf(self) -> bool {
        &&& self.geometry.wf()
        &&& self.geometry.non_degenerate()
        &&& forall|i: int| 0 <= i < self.layers.len() ==> (#[trigger] self.layers[i]).wf()
    }

    /// The index of the layer surface of `layer` under `point` that was mapped
    /// last.
    pub open spec fn layer_under(self, layer: Layer, point: Point) -> Option<int> {
        last_where(self.layers, |l: LayerSurfaceView| l.is_under(layer, point))
    }

    /// Some layer surface of this output holds `surface`.
    pub open spec fn has_layer_for_surface(self, surface: u64) -> bool {
        exists|i: int| 0 <= i < self.layers.len() && (#[trigger] self.layers[i]).has_surface(surface)
    }

    /// The output object that `client` bound last, if it bound any.
    pub open spec fn last_client_output(self, client: u32) -> Option<u32> {
        match last_where(self.client_outputs, |c: ClientOutput| c.client == client) {
            Some(i) => Some(self.client_outputs[i].object),
            None => None,
        }
    }

    /// The output with `layer` mapped on it, above the layer surfaces that
    /// were mapped before.
    pub open spec fn with_layer(self, layer: LayerSurfaceView) -> OutputView {
        OutputView { layers: self.layers.push(layer), ..self }
    }

    /// The screen-space origin of the layer surface at index `i`.
    pub open spec fn layer_origin(self, i: int) -> Point {
        self.geometry.loc.spec_add(self.layers[i].geometry.loc)
    }
}

/// A display, with the layer surfaces mapped on it in mapping order.
#[derive(Debug)]
pub struct Output {
    /// Stable identity of the output.
    pub id: u32,
    pub name: String,
    /// Geometry in the global compositor space.
    pub geometry: Rect,
    /// The layer surfaces of this output; a later one was mapped later.
    pub layers: Vec<LayerSurface>,
    /// The output objects that clients have bound for this output, in
    /// binding order.
    pub client_outputs: Vec<ClientOutput>,
}

impl View for Output {
    type V = OutputView;

    open spec fn view(&self) -> OutputView {
        OutputView {
            id: self.id,
            name: self.name@,
            geometry: self.geometry,
            layers: views(self.layers@),
            client_outputs: self.client_outputs@,
        }
    }
}

impl Output {
    /// An output with no layer surface and no bound output object.
    pub fn new(id: u32, name: String, geometry: Rect) -> (o: Output)
        ensures
            o@ == (OutputView {
                id,
                name: name@,
                geometry,
                layers: Seq::<LayerSurfaceView>::empty(),
                client_outputs: Seq::<ClientOutput>::empty(),
            }),
    {
        let o = Output { id, name, geometry, layers: Vec::new(), client_outputs: Vec::new() };
        assert(o@.layers =~= Seq::<LayerSurfaceView>::empty());
        o
    }

    /// Maps `layer` on the output, above the layer surfaces that were mapped
    /// before.
    pub fn map_layer(&mut self, layer: LayerSurface)
        ensures
            final(self)@ == old(self)@.with_layer(layer@),
            old(self)@.wf() && layer@.wf() ==> final(self)@.wf(),
    {
        self.layers.push(layer);
        proof {
            assert(self@.layers =~= old(self)@.layers.push(layer@));
            if old(self)@.wf() && layer@.wf() {
                assert forall|i: int| 0 <= i < self@.layers.len() implies (#[trigger] self@.layers[i]).wf() by {
                    if i < old(self)@.layers.len() {
                        assert(old(self)@.layers[i].wf());
                    }
                }
            }
        }
    }

    pub fn geometry(&self) -> (g: Rect)
        ensures
            g == self@.geometry,
    {
        self.geometry
    }

    pub fn name(&self) -> (n: &String)
        ensures
            n@ == self@.name,
    {
        &self.name
    }

    /// Whether the output is well formed.
    pub fn is_wf(&self) -> (b: bool)
        ensures
            b == self@.wf(),
    {
        if !(self.geometry.size.w > 0 && self.geometry.size.h > 0) {
            return false;
        }
        let mut i: usize = 0;
        while i < self.layers.len()
            invariant
                i <= self.layers.len(),
                forall|k: int| 0 <= k < i ==> (#[trigger] self@.layers[k]).wf(),
            decreases self.layers.len() - i,
        {
            assert(self@.layers[i as int] == self.layers[i as int]@);
            if !self.layers[i].is_wf() {
                return false;
            }
            i += 1;
        }
        true
    }

    /// The layer surface of `layer` under `point` that was mapped last.
    pub fn layer_under(&self, layer: Layer, point: Point) -> (r: Option<usize>)
        ensures
            match r {
                Some(i) => self@.layer_under(layer, point) == Some(i as int) && i < self@.layers.len(),
                None => self@.layer_under(layer, point) is None,
            },
    {
        let ghost p = |l: LayerSurfaceView| l.is_under(layer, point);
        let mut i: usize = self.layers.len();
        while i > 0
            invariant
                i <= self.layers.len(),
                p == (|l: LayerSurfaceView| l.is_under(layer, point)),
                forall|k: int| i <= k < self.layers.len() ==> !p(#[trigger] self@.layers[k]),
            decreases i,
        {
            i -= 1;
            let l = &self.layers[i];
            assert(self@.layers[i as int] == l@);
            if l.layer == layer && l.bbox_with_popups.contains(point) {
                proof {
                    assert(is_last_where(self@.layers, p, i as int));
                    lemma_last_where_found(self@.layers, p, i as int);
                }
                return Some(i);
            }
        }
        proof {
            assert(none_where(self@.layers, p));
            lemma_last_where_none(self@.layers, p);
        }
        None
    }

    /// Whether some layer surface of this output holds `surface`.
    pub fn has_layer_for_surface(&self, surface: u64) -> (b: bool)
        ensures
            b == self@.has_layer_for_surface(surface),
    {
        let mut i: usize = 0;
        while i < self.layers.len()
            invariant
                i <= self.layers.len(),
                forall|k: int| 0 <= k < i ==> !(#[trigger] self@.layers[k]).has_surface(surface),
            decreases self.layers.len() - i,
        {
            assert(self@.layers[i as int] == self.layers[i as int]@);
            if self.layers[i].has_surface(surface) {
                return true;
            }
            i += 1;
        }
        false
    }

    /// The output object that `client` bound last, if it bound any.
    pub fn last_client_output(&self, client: u32) -> (r: Option<u32>)
        ensures
            r == self@.last_client_output(client),
    {
        let ghost p = |c: ClientOutput| c.client == client;
        let ghost mut at: int = 0;
        let mut found: Option<u32> = None;
        let mut i: usize = 0;
        while i < self.client_outputs.len()
            invariant
                i <= self.client_outputs.len(),
                p == (|c: ClientOutput| c.client == client),
                found is Some ==> 0 <= at < i && p(self.client_outputs@[at]) && found == Some(
                    self.client_outputs@[at].object,
                ),
                found is Some ==> forall|k: int| at < k < i ==> !p(#[trigger] self.client_outputs@[k]),
                found is None ==> forall|k: int| 0 <= k < i ==> !p(#[trigger] self.client_outputs@[k]),
            decreases self.client_outputs.len() - i,
        {
            if self.client_outputs[i].client == client {
                found = Some(self.client_outputs[i].object);
                proof {
                    at = i as int;
                }
            }
            i += 1;
        }
        proof {
            if found is Some {
                assert(is_last_where(self.client_outputs@, p, at));
                lemma_last_where_found(self.client_outputs@, p, at);
            } else {
                assert(none_where(self.client_outputs@, p));
                lemma_last_where_none(self.client_outputs@, p);
            }
        }
        found
    }
}

} // verus!
