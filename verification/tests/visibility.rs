use fht_compositor::animation::{Animation, AnimationCurve};
use fht_compositor::geometry::{Point, Rect};
use fht_compositor::output::{Layer, LayerSurface, Output};
use fht_compositor::popup::Popup;
use fht_compositor::rules::WindowMapSettings;
use fht_compositor::state::Fht;
use fht_compositor::time::{MonotonicTime, TimeSpan};
use fht_compositor::window::FhtWindow;

fn window(id: u64, geometry: Rect) -> FhtWindow {
    let mut w = FhtWindow::new(id, 7, format!("window {}", id), "app".to_string(), id * 10, geometry);
    w.children = vec![id * 10 + 1, id * 10 + 2];
    w
}

fn map_on(fht: &mut Fht, w: FhtWindow, output: u32, workspace: usize) {
    let id = w.id;
    assert!(fht.add_pending_window(w, output));
    fht.map_window_with(id, &WindowMapSettings { workspace: Some(workspace), ..WindowMapSettings::default() });
}

fn two_outputs() -> Fht {
    let mut fht = Fht::new(false);
    let mut left = Output::new(1, "DP-1".to_string(), Rect::new(0, 0, 1920, 1080));
    left.layers = vec![LayerSurface {
        id: 900,
        layer: Layer::Top,
        geometry: Rect::new(0, 0, 1920, 30),
        bbox_with_popups: Rect::new(0, 0, 1920, 30),
        surfaces: vec![900, 901],
    }];
    assert!(fht.add_output(left));
    assert!(fht.add_output(Output::new(2, "HDMI-1".to_string(), Rect::new(1920, 0, 1920, 1080))));
    fht
}

fn switch() -> Animation {
    Animation::starting_at(AnimationCurve::Simple, TimeSpan::new(0, 300_000_000), MonotonicTime::new(1, 0))
}

#[test]
fn find_window_by_any_of_its_surfaces() {
    let mut fht = two_outputs();
    map_on(&mut fht, window(1, Rect::new(0, 0, 100, 100)), 1, 0);
    map_on(&mut fht, window(2, Rect::new(0, 0, 100, 100)), 2, 5);
    map_on(&mut fht, window(3, Rect::new(0, 0, 100, 100)), 2, 5);
    assert!(fht.fullscreen_window(3));
    assert_eq!(fht.find_window(10).map(|w| w.id), Some(1));
    assert_eq!(fht.find_window(22).map(|w| w.id), Some(2));
    assert_eq!(fht.find_window(31).map(|w| w.id), Some(3));
    assert!(fht.find_window(900).is_none());
    assert!(fht.find_window(4).is_none());
    let (w, o) = fht.find_window_and_output(21).unwrap();
    assert_eq!((w.id, o.id), (2, 2));
    let (w, o) = fht.find_window_and_output(12).unwrap();
    assert_eq!((w.id, o.id), (1, 1));
    assert!(fht.find_window_and_output(77).is_none());
    let w = fht.find_window(30).unwrap();
    assert!(w.has_surface(30) && w.has_surface(32) && !w.has_surface(33));
}

#[test]
fn a_surface_shows_on_the_output_of_its_layer_window_or_pending_layer() {
    let mut fht = two_outputs();
    map_on(&mut fht, window(1, Rect::new(0, 0, 100, 100)), 2, 0);
    map_on(&mut fht, window(2, Rect::new(0, 0, 100, 100)), 1, 3);
    map_on(&mut fht, window(3, Rect::new(0, 0, 100, 100)), 1, 0);
    assert!(fht.fullscreen_window(3));
    let pending = LayerSurface {
        id: 950,
        layer: Layer::Overlay,
        geometry: Rect::new(0, 0, 10, 10),
        bbox_with_popups: Rect::new(0, 0, 10, 10),
        surfaces: vec![950],
    };
    assert!(fht.add_pending_layer(pending, 2));
    let flat = LayerSurface {
        id: 951,
        layer: Layer::Overlay,
        geometry: Rect::new(0, 0, -10, 10),
        bbox_with_popups: Rect::new(0, 0, 10, 10),
        surfaces: vec![951],
    };
    assert!(!fht.add_pending_layer(flat, 2));
    assert_eq!(fht.visible_output_for_surface(901).map(|o| o.id), Some(1));
    assert_eq!(fht.visible_output_for_surface(950).map(|o| o.id), Some(2));
    assert_eq!(fht.visible_output_for_surface(11).map(|o| o.id), Some(2));
    // The fullscreen window of an active workspace shows too.
    assert_eq!(fht.visible_output_for_surface(30).map(|o| o.id), Some(1));
    // A window on a workspace that is not active shows nowhere.
    assert_eq!(fht.visible_output_for_surface(20).map(|o| o.id), None);
    assert_eq!(fht.visible_output_for_surface(951).map(|o| o.id), None);
    assert!(fht.wset_for(1).unwrap().output().has_layer_for_surface(900));
    assert!(!fht.wset_for(2).unwrap().output().has_layer_for_surface(900));
}

#[test]
fn a_window_shows_on_the_outputs_it_overlaps() {
    let fht = two_outputs();
    let spanning = window(1, Rect::new(1800, 100, 400, 300));
    let ids: Vec<u32> = fht.visible_outputs_for_window(&spanning).iter().map(|o| o.id).collect();
    assert_eq!(ids, vec![1, 2]);
    let right = window(2, Rect::new(1920, 0, 10, 10));
    let ids: Vec<u32> = fht.visible_outputs_for_window(&right).iter().map(|o| o.id).collect();
    assert_eq!(ids, vec![2]);
    let nowhere = window(3, Rect::new(0, 2000, 10, 10));
    assert!(fht.visible_outputs_for_window(&nowhere).is_empty());
}

#[test]
fn visible_windows_follow_fullscreen_and_switches() {
    let mut fht = two_outputs();
    map_on(&mut fht, window(1, Rect::new(0, 0, 100, 100)), 1, 0);
    map_on(&mut fht, window(2, Rect::new(0, 0, 100, 100)), 1, 0);
    map_on(&mut fht, window(3, Rect::new(0, 0, 100, 100)), 1, 4);
    map_on(&mut fht, window(4, Rect::new(0, 0, 100, 100)), 1, 4);
    let ids = |fht: &Fht, o: u32| -> Vec<u64> { fht.visible_windows_for_output(o).iter().map(|w| w.id).collect() };
    assert_eq!(ids(&fht, 1), vec![1, 2]);
    assert_eq!(ids(&fht, 2), Vec::<u64>::new());
    assert_eq!(ids(&fht, 5), Vec::<u64>::new());

    // During a switch both workspaces show, the active one first.
    assert!(!fht.wset_mut_for(1).unwrap().start_switch(0, switch()));
    assert!(!fht.wset_mut_for(1).unwrap().start_switch(9, switch()));
    assert_eq!(ids(&fht, 1), vec![1, 2]);
    assert!(fht.wset_mut_for(1).unwrap().start_switch(4, switch()));
    assert_eq!(fht.wset_for(1).unwrap().switch_animation().map(|s| s.target_idx()), Some(4));
    assert_eq!(ids(&fht, 1), vec![1, 2, 3, 4]);

    // A fullscreen window on the workspace switched to shows alone.
    assert!(fht.fullscreen_window(4));
    assert_eq!(ids(&fht, 1), vec![4]);
    // One on the active workspace comes first.
    assert!(fht.fullscreen_window(1));
    assert_eq!(ids(&fht, 1), vec![1]);

    fht.wset_mut_for(1).unwrap().finish_switch();
    assert_eq!(fht.wset_for(1).unwrap().active_idx(), 4);
    assert!(fht.wset_for(1).unwrap().switch_animation().is_none());
    assert_eq!(ids(&fht, 1), vec![4]);
    fht.ws_mut_for(4).unwrap().restore_fullscreen();
    assert_eq!(ids(&fht, 1), vec![3, 4]);
}

#[test]
fn popup_target_is_the_union_of_the_outputs_in_popup_space() {
    let mut fht = two_outputs();
    map_on(&mut fht, window(1, Rect::new(1800, 100, 400, 300)), 1, 0);
    let popup = Popup { root: Some(11), toplevel_coords: Point::new(0, 0) };
    // Both outputs together are (0, 0, 3840, 1080); seen from the window at
    // (1800, 100) that is (-1800, -100, 3840, 1080).
    assert_eq!(fht.unconstrain_popup(&popup), Some(Rect::new(-1800, -100, 3840, 1080)));
    let nested = Popup { root: Some(10), toplevel_coords: Point::new(40, 25) };
    assert_eq!(fht.unconstrain_popup(&nested), Some(Rect::new(-1840, -125, 3840, 1080)));
    let at_origin = window(9, Rect::new(0, 0, 3840, 1080));
    assert_eq!(
        fht.popup_target_for(&at_origin, Point::new(0, 0)),
        Some(Rect::new(0, 0, 3840, 1080))
    );
}

#[test]
fn popup_on_one_output_is_kept_on_that_output() {
    let mut fht = two_outputs();
    map_on(&mut fht, window(1, Rect::new(2000, 500, 400, 300)), 1, 0);
    let popup = Popup { root: Some(10), toplevel_coords: Point::new(10, 20) };
    assert_eq!(fht.unconstrain_popup(&popup), Some(Rect::new(-90, -520, 1920, 1080)));
}

#[test]
fn popups_without_a_window_or_an_output_are_left_alone() {
    let mut fht = two_outputs();
    map_on(&mut fht, window(1, Rect::new(0, 5000, 400, 300)), 1, 0);
    // The root is a layer surface, not a window.
    assert_eq!(fht.unconstrain_popup(&Popup { root: Some(900), toplevel_coords: Point::new(0, 0) }), None);
    // The root could not be found.
    assert_eq!(fht.unconstrain_popup(&Popup { root: None, toplevel_coords: Point::new(0, 0) }), None);
    // The window shows on no output.
    assert_eq!(fht.unconstrain_popup(&Popup { root: Some(10), toplevel_coords: Point::new(0, 0) }), None);
}
