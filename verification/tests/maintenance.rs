use fht_compositor::focus::FocusTarget;
use fht_compositor::geometry::{Point, Rect};
use fht_compositor::output::{Layer, LayerSurface, Output};
use fht_compositor::rules::WindowRulePattern;
use fht_compositor::state::{Fht, State};
use fht_compositor::window::FhtWindow;

fn layer(id: u64, layer: Layer, geometry: Rect) -> LayerSurface {
    LayerSurface { id, layer, geometry, bbox_with_popups: geometry, surfaces: vec![id] }
}

fn window(id: u64) -> FhtWindow {
    FhtWindow::new(id, 7, format!("window {}", id), "app".to_string(), id * 10, Rect::new(0, 0, 100, 100))
}

fn one_output() -> Fht {
    let mut fht = Fht::new(false);
    assert!(fht.add_output(Output::new(1, "DP-1".to_string(), Rect::new(0, 0, 1920, 1080))));
    assert!(fht.set_focused_output(Some(1)));
    fht
}

#[test]
fn a_pending_layer_is_mapped_above_the_others() {
    let mut fht = one_output();
    assert!(fht.add_pending_layer(layer(5, Layer::Overlay, Rect::new(0, 0, 50, 50)), 1));
    assert!(fht.add_pending_layer(layer(6, Layer::Overlay, Rect::new(0, 0, 50, 50)), 1));
    assert_eq!(fht.pending_layer_index(6), Some(1));
    assert_eq!(fht.focus_target_under(Point::new(10, 10)), None);
    assert_eq!(fht.visible_output_for_surface(6).map(|o| o.id), Some(1));
    assert!(fht.map_layer(5));
    assert_eq!(
        fht.focus_target_under(Point::new(10, 10)),
        Some((FocusTarget::LayerSurface(5), Point::new(0, 0)))
    );
    assert!(fht.map_layer(6));
    assert_eq!(
        fht.focus_target_under(Point::new(10, 10)),
        Some((FocusTarget::LayerSurface(6), Point::new(0, 0)))
    );
    assert!(!fht.map_layer(6));
    assert!(!fht.map_layer(99));
    assert_eq!(fht.pending_layer_index(5), None);
    let ids: Vec<u64> = fht.wset_for(1).unwrap().output().layers.iter().map(|l| l.id).collect();
    assert_eq!(ids, vec![5, 6]);
}

#[test]
fn a_window_geometry_can_be_changed_in_place() {
    let mut fht = one_output();
    for id in 1..=2 {
        assert!(fht.add_pending_window(window(id), 1));
        fht.map_window(id);
    }
    assert!(fht.fullscreen_window(2));
    assert!(fht.set_window_geometry(1, Rect::new(500, 500, 10, 10)));
    assert!(fht.set_window_geometry(2, Rect::new(7, 7, 7, 7)));
    assert!(!fht.set_window_geometry(3, Rect::new(0, 0, 1, 1)));
    assert!(!fht.set_window_geometry(1, Rect::new(0, 0, -1, 1)));
    let ws = fht.ws_for(1).unwrap();
    assert_eq!(ws.window(1).unwrap().global_geometry(), Rect::new(500, 500, 10, 10));
    assert_eq!(ws.window(2).unwrap().global_geometry(), Rect::new(7, 7, 7, 7));
    assert_eq!(ws.fullscreen().unwrap().inner().id, 2);
    fht.ws_mut_for(2).unwrap().restore_fullscreen();
    assert_eq!(
        fht.focus_target_under(Point::new(505, 505)),
        Some((FocusTarget::Window(1), Point::new(500, 500)))
    );
}

#[test]
fn an_unmapped_window_is_handed_back() {
    let mut fht = one_output();
    for id in 1..=3 {
        assert!(fht.add_pending_window(window(id), 1));
        fht.map_window(id);
    }
    assert!(fht.fullscreen_window(3));
    assert_eq!(fht.unmap_window(2).map(|w| w.id), Some(2));
    assert!(fht.unmap_window(2).is_none());
    assert!(!fht.has_window(2));
    assert_eq!(fht.unmap_window(3).map(|w| w.id), Some(3));
    assert!(fht.ws_for(1).unwrap().fullscreen().is_none());
    assert!(fht.unmap_window(42).is_none());
    let left: Vec<u64> = fht.ws_for(1).unwrap().windows().iter().map(|w| w.id).collect();
    assert_eq!(left, vec![1]);
    // The identity is free again.
    assert!(fht.add_pending_window(window(2), 1));
    let removed = fht.ws_mut_for(1).unwrap().remove_window(1);
    assert_eq!(removed.map(|w| w.id), Some(1));
    assert!(fht.wset_mut_for(1).unwrap().remove_window(1).is_none());
    assert!(!fht.has_window(1));
}

#[test]
fn the_state_is_reached_through_its_owner() {
    let mut state = State::new(one_output());
    assert!(state.fht_mut().add_pending_window(window(1), 1));
    state.fht_mut().map_window(1);
    assert!(state.fht().has_window(1));
    assert_eq!(state.into_fht().pending_window_count(), 0);
}

#[test]
fn a_pattern_gives_its_criteria_back() {
    let pattern = WindowRulePattern::new(Some(3), Some("foo".to_string()), None);
    assert_eq!(pattern.workspace(), Some(3));
    assert_eq!(pattern.title(), &Some("foo".to_string()));
    assert_eq!(pattern.app_id(), &None);
}

#[test]
fn a_stale_restore_index_is_clamped_to_the_sequence() {
    let mut fht = one_output();
    for id in 1..=3 {
        assert!(fht.add_pending_window(window(id), 1));
        fht.map_window(id);
    }
    assert!(fht.fullscreen_window(3));
    assert_eq!(fht.ws_for(3).unwrap().fullscreen().map(|f| f.last_known_idx()), Some(2));
    assert!(fht.unmap_window(1).is_some());
    assert!(fht.unmap_window(2).is_some());
    // The window left from index 2, but the sequence is empty now.
    assert!(fht.add_pending_window(window(4), 1));
    fht.map_window(4);
    let ids: Vec<u64> = fht.ws_for(3).unwrap().windows().iter().map(|w| w.id).collect();
    assert_eq!(ids, vec![3, 4]);
    assert!(fht.ws_for(3).unwrap().fullscreen().is_none());
}

#[test]
fn a_restore_index_inside_a_shorter_sequence_is_kept() {
    let mut fht = one_output();
    for id in 1..=4 {
        assert!(fht.add_pending_window(window(id), 1));
        fht.map_window(id);
    }
    assert!(fht.fullscreen_window(2));
    assert!(fht.unmap_window(4).is_some());
    assert!(fht.add_pending_window(window(5), 1));
    fht.map_window(5);
    let ids: Vec<u64> = fht.ws_for(2).unwrap().windows().iter().map(|w| w.id).collect();
    assert_eq!(ids, vec![1, 2, 3, 5]);
}
