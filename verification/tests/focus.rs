use fht_compositor::focus::FocusTarget;
use fht_compositor::geometry::{Point, Rect};
use fht_compositor::output::{Layer, LayerSurface, Output};
use fht_compositor::state::Fht;
use fht_compositor::window::FhtWindow;

fn layer(id: u64, layer: Layer, geometry: Rect) -> LayerSurface {
    LayerSurface { id, layer, geometry, bbox_with_popups: geometry, surfaces: vec![id] }
}

fn window(id: u64, geometry: Rect) -> FhtWindow {
    FhtWindow::new(id, 7, format!("window {}", id), "app".to_string(), id, geometry)
}

fn scene(layers: Vec<LayerSurface>, windows: Vec<FhtWindow>, fullscreen: Option<u64>) -> Fht {
    let mut fht = Fht::new(false);
    let mut output = Output::new(1, "DP-1".to_string(), Rect::new(100, 50, 1920, 1080));
    output.layers = layers;
    assert!(fht.add_output(output));
    for w in windows {
        let id = w.id;
        assert!(fht.add_pending_window(w, 1));
        fht.map_window(id);
    }
    if let Some(id) = fullscreen {
        assert!(fht.fullscreen_window(id));
    }
    assert!(fht.set_focused_output(Some(1)));
    fht
}

fn stacked_windows() -> Vec<FhtWindow> {
    vec![
        window(1, Rect::new(0, 0, 800, 600)),
        window(2, Rect::new(200, 200, 800, 600)),
        window(3, Rect::new(1500, 900, 100, 100)),
    ]
}

#[test]
fn overlay_then_fullscreen_then_topmost_window() {
    let point = Point::new(300, 300);
    let overlay = layer(50, Layer::Overlay, Rect::new(250, 250, 200, 200));
    let with_all = scene(vec![overlay], stacked_windows(), Some(1));
    assert_eq!(
        with_all.focus_target_under(point),
        Some((FocusTarget::LayerSurface(50), Point::new(350, 300)))
    );
    let without_overlay = scene(vec![], stacked_windows(), Some(1));
    assert_eq!(
        without_overlay.focus_target_under(point),
        Some((FocusTarget::Window(1), Point::new(100, 50)))
    );
    let without_fullscreen = scene(vec![], stacked_windows(), None);
    assert_eq!(
        without_fullscreen.focus_target_under(point),
        Some((FocusTarget::Window(2), Point::new(200, 200)))
    );
}

#[test]
fn a_fullscreen_window_takes_every_point_below_the_overlay() {
    let top = layer(60, Layer::Top, Rect::new(0, 0, 1920, 30));
    let fht = scene(vec![top], stacked_windows(), Some(3));
    assert_eq!(
        fht.focus_target_under(Point::new(5, 5)),
        Some((FocusTarget::Window(3), Point::new(100, 50)))
    );
    assert_eq!(
        fht.focus_target_under(Point::new(-4000, 9000)),
        Some((FocusTarget::Window(3), Point::new(100, 50)))
    );
}

#[test]
fn top_layer_comes_before_windows_and_low_layers_after() {
    let layers = vec![
        layer(10, Layer::Background, Rect::new(0, 0, 1920, 1080)),
        layer(20, Layer::Bottom, Rect::new(0, 1000, 1920, 80)),
        layer(30, Layer::Top, Rect::new(0, 0, 1920, 30)),
    ];
    let fht = scene(layers, stacked_windows(), None);
    assert_eq!(
        fht.focus_target_under(Point::new(10, 10)),
        Some((FocusTarget::LayerSurface(30), Point::new(100, 50)))
    );
    assert_eq!(
        fht.focus_target_under(Point::new(10, 100)),
        Some((FocusTarget::Window(1), Point::new(0, 0)))
    );
    assert_eq!(
        fht.focus_target_under(Point::new(1000, 1050)),
        Some((FocusTarget::LayerSurface(20), Point::new(100, 1050)))
    );
    assert_eq!(
        fht.focus_target_under(Point::new(1200, 900)),
        Some((FocusTarget::LayerSurface(10), Point::new(100, 50)))
    );
    assert_eq!(fht.focus_target_under(Point::new(5000, 5000)), None);
}

#[test]
fn the_layer_surface_mapped_last_is_on_top_of_its_layer() {
    let layers = vec![
        layer(1, Layer::Overlay, Rect::new(0, 0, 100, 100)),
        layer(2, Layer::Overlay, Rect::new(50, 50, 100, 100)),
        layer(3, Layer::Top, Rect::new(0, 0, 500, 500)),
    ];
    let fht = scene(layers, vec![], None);
    assert_eq!(
        fht.focus_target_under(Point::new(75, 75)),
        Some((FocusTarget::LayerSurface(2), Point::new(150, 100)))
    );
    assert_eq!(
        fht.focus_target_under(Point::new(25, 25)),
        Some((FocusTarget::LayerSurface(1), Point::new(100, 50)))
    );
    assert_eq!(
        fht.focus_target_under(Point::new(200, 200)),
        Some((FocusTarget::LayerSurface(3), Point::new(100, 50)))
    );
    let output = fht.wset_for(1).unwrap().output();
    assert_eq!(output.layer_under(Layer::Overlay, Point::new(75, 75)), Some(1));
    assert_eq!(output.layer_under(Layer::Bottom, Point::new(75, 75)), None);
}

#[test]
fn popups_widen_what_a_layer_surface_catches() {
    let mut panel = layer(1, Layer::Top, Rect::new(0, 0, 1920, 30));
    panel.bbox_with_popups = Rect::new(0, 0, 1920, 300);
    let fht = scene(vec![panel], vec![], None);
    assert_eq!(
        fht.focus_target_under(Point::new(10, 200)),
        Some((FocusTarget::LayerSurface(1), Point::new(100, 50)))
    );
    assert_eq!(fht.focus_target_under(Point::new(10, 300)), None);
}

#[test]
fn no_focused_output_no_target() {
    let mut fht = scene(vec![], stacked_windows(), None);
    assert!(fht.set_focused_output(None));
    assert_eq!(fht.focus_target_under(Point::new(300, 300)), None);
    assert!(!fht.set_focused_output(Some(9)));
    assert_eq!(fht.focus_state().output, None);
    assert!(fht.set_focused_output(Some(1)));
    assert_eq!(
        fht.focus_target_under(Point::new(300, 300)),
        Some((FocusTarget::Window(2), Point::new(200, 200)))
    );
}

#[test]
fn only_the_active_workspace_is_asked() {
    let mut fht = scene(vec![], stacked_windows(), None);
    assert!(fht.wset_mut_for(1).unwrap().set_active_idx(1));
    assert_eq!(fht.focus_target_under(Point::new(300, 300)), None);
    assert!(!fht.wset_mut_for(1).unwrap().set_active_idx(9));
    assert!(fht.wset_mut_for(1).unwrap().set_active_idx(0));
    assert_eq!(
        fht.focus_target_under(Point::new(10, 10)),
        Some((FocusTarget::Window(1), Point::new(0, 0)))
    );
    assert_eq!(fht.wset_for(1).unwrap().active().window_under(Point::new(300, 300)), Some(1));
}
