use fht_compositor::focus::FocusTarget;
use fht_compositor::geometry::Rect;
use fht_compositor::output::{ClientOutput, Output};
use fht_compositor::rules::WindowMapSettings;
use fht_compositor::state::Fht;
use fht_compositor::window::FhtWindow;
use fht_compositor::workspaces::WORKSPACE_COUNT;

fn output(id: u32, name: &str, x: i32) -> Output {
    Output::new(id, name.to_string(), Rect::new(x, 0, 1920, 1080))
}

fn window(id: u64) -> FhtWindow {
    FhtWindow::new(id, 7, format!("window {}", id), "app".to_string(), id * 100, Rect::new(10, 10, 300, 200))
}

fn ids_on(fht: &Fht, output: u32, workspace: usize) -> Vec<u64> {
    let set = fht.wset_for(output).unwrap();
    set.workspace(workspace).unwrap().windows().iter().map(|w| w.id).collect()
}

fn slot_on(fht: &Fht, output: u32, workspace: usize) -> Option<(u64, usize)> {
    let set = fht.wset_for(output).unwrap();
    set.workspace(workspace).unwrap().fullscreen().map(|f| (f.inner().id, f.last_known_idx()))
}

fn two_outputs(focus_new_windows: bool) -> Fht {
    let mut fht = Fht::new(focus_new_windows);
    assert!(fht.add_output(output(1, "DP-1", 0)));
    assert!(fht.add_output(output(2, "HDMI-1", 1920)));
    fht
}

#[test]
fn an_output_gets_its_workspaces() {
    let fht = two_outputs(true);
    assert_eq!(fht.output_count(), 2);
    assert_eq!(WORKSPACE_COUNT, 9);
    let set = fht.wset_for(2).unwrap();
    assert_eq!(set.active_idx(), 0);
    assert_eq!(set.output().name, "HDMI-1");
    for idx in 0..WORKSPACE_COUNT {
        assert!(set.workspace(idx).unwrap().windows().is_empty());
        assert!(set.workspace(idx).unwrap().fullscreen().is_none());
    }
    assert!(fht.wset_for(3).is_none());
}

#[test]
fn outputs_and_pending_windows_are_vetted() {
    let mut fht = two_outputs(true);
    assert!(!fht.add_output(output(1, "again", 5000)));
    assert!(!fht.add_output(Output::new(9, "flat".to_string(), Rect::new(0, 0, 1920, 0))));
    assert_eq!(fht.output_count(), 2);
    assert!(fht.add_pending_window(window(1), 1));
    assert!(!fht.add_pending_window(window(1), 2));
    assert!(!fht.add_pending_window(window(2), 3));
    let mut bad = window(3);
    bad.geometry = Rect::new(0, 0, -5, 10);
    assert!(!fht.add_pending_window(bad, 1));
    assert_eq!(fht.pending_window_count(), 1);
    fht.map_window(1);
    assert!(!fht.add_pending_window(window(1), 1));
    assert_eq!(fht.pending_window_count(), 0);
}

#[test]
fn map_window_maps_on_the_active_workspace_and_focuses() {
    let mut fht = two_outputs(true);
    assert!(fht.add_pending_window(window(1), 2));
    assert!(fht.add_pending_window(window(2), 2));
    fht.map_window(2);
    assert_eq!(fht.pending_window_count(), 1);
    assert_eq!(ids_on(&fht, 2, 0), vec![2]);
    assert_eq!(ids_on(&fht, 1, 0), Vec::<u64>::new());
    assert_eq!(fht.focus_state().focus_target, Some(FocusTarget::Window(2)));
    fht.map_window(1);
    assert_eq!(ids_on(&fht, 2, 0), vec![2, 1]);
    assert_eq!(fht.focus_state().focus_target, Some(FocusTarget::Window(1)));
    let mapped = &fht.wset_for(2).unwrap().workspace(0).unwrap().windows()[1];
    assert!(mapped.tiled);
    assert!(!mapped.fullscreen);
    assert_eq!(mapped.fullscreen_output, None);
    assert!(fht.has_window(1));
    assert!(!fht.has_window(3));
}

#[test]
fn map_window_of_an_absent_window_changes_nothing() {
    let mut fht = two_outputs(true);
    assert!(fht.add_pending_window(window(1), 1));
    assert!(fht.add_pending_window(window(2), 1));
    fht.map_window(1);
    assert!(fht.set_focused_output(Some(1)));
    let before = format!("{:?}", fht);
    fht.map_window(42);
    assert_eq!(format!("{:?}", fht), before);
    // A window that is mapped already is not pending any more.
    fht.map_window(1);
    assert_eq!(format!("{:?}", fht), before);
    fht.map_window_with(42, &WindowMapSettings { workspace: Some(3), ..WindowMapSettings::default() });
    assert_eq!(format!("{:?}", fht), before);
}

#[test]
fn new_windows_keep_the_focus_where_it_is_when_asked_to() {
    let mut fht = two_outputs(false);
    fht.set_focus_target(Some(FocusTarget::LayerSurface(5)));
    assert!(fht.add_pending_window(window(1), 1));
    fht.map_window(1);
    assert_eq!(fht.focus_state().focus_target, Some(FocusTarget::LayerSurface(5)));
    assert_eq!(ids_on(&fht, 1, 0), vec![1]);
}

#[test]
fn settings_pick_output_and_workspace() {
    let mut fht = two_outputs(true);
    for id in 1..=4 {
        assert!(fht.add_pending_window(window(id), 1));
    }
    let named = WindowMapSettings {
        output: Some("HDMI-1".to_string()),
        workspace: Some(3),
        ..WindowMapSettings::default()
    };
    fht.map_window_with(1, &named);
    assert_eq!(ids_on(&fht, 2, 3), vec![1]);
    // An index past the last workspace is brought back to the last one.
    let far = WindowMapSettings { workspace: Some(1000), ..WindowMapSettings::default() };
    fht.map_window_with(2, &far);
    assert_eq!(ids_on(&fht, 1, 8), vec![2]);
    let last = WindowMapSettings { workspace: Some(8), ..WindowMapSettings::default() };
    fht.map_window_with(3, &last);
    assert_eq!(ids_on(&fht, 1, 8), vec![2, 3]);
    // An output that does not exist leaves the window where it was proposed.
    let nowhere = WindowMapSettings { output: Some("VGA-7".to_string()), ..WindowMapSettings::default() };
    fht.map_window_with(4, &nowhere);
    assert_eq!(ids_on(&fht, 1, 0), vec![4]);
}

#[test]
fn settings_set_the_window_state() {
    let mut fht = Fht::new(true);
    let mut out = output(1, "DP-1", 0);
    out.client_outputs = vec![
        ClientOutput { client: 7, object: 30 },
        ClientOutput { client: 8, object: 31 },
        ClientOutput { client: 7, object: 32 },
        ClientOutput { client: 9, object: 33 },
    ];
    assert!(fht.add_output(out));
    assert!(fht.add_pending_window(window(1), 1));
    assert!(fht.add_pending_window(window(2), 1));
    let settings = WindowMapSettings { floating: true, fullscreen: true, ..WindowMapSettings::default() };
    fht.map_window_with(1, &settings);
    let mapped = &fht.wset_for(1).unwrap().workspace(0).unwrap().windows()[0];
    assert!(!mapped.tiled);
    assert!(mapped.fullscreen);
    // The client's output object that was bound last.
    assert_eq!(mapped.fullscreen_output, Some(32));
    assert_eq!(fht.wset_for(1).unwrap().output().last_client_output(8), Some(31));
    assert_eq!(fht.wset_for(1).unwrap().output().last_client_output(1), None);
    fht.map_window(2);
    let plain = &fht.wset_for(1).unwrap().workspace(0).unwrap().windows()[1];
    assert!(plain.tiled);
    assert_eq!(plain.fullscreen_output, Some(32));
    assert!(!plain.fullscreen);
}

#[test]
fn a_fullscreen_window_returns_to_its_index_when_a_window_is_mapped() {
    let mut fht = two_outputs(true);
    for id in 1..=4 {
        assert!(fht.add_pending_window(window(id), 1));
    }
    fht.map_window(1);
    fht.map_window(2);
    fht.map_window(3);
    assert!(fht.fullscreen_window(2));
    assert_eq!(ids_on(&fht, 1, 0), vec![1, 3]);
    assert_eq!(slot_on(&fht, 1, 0), Some((2, 1)));
    fht.map_window(4);
    assert_eq!(ids_on(&fht, 1, 0), vec![1, 2, 3, 4]);
    assert_eq!(slot_on(&fht, 1, 0), None);
}

#[test]
fn the_last_window_returns_to_the_end() {
    let mut fht = two_outputs(true);
    for id in 1..=4 {
        assert!(fht.add_pending_window(window(id), 1));
    }
    fht.map_window(1);
    fht.map_window(2);
    fht.map_window(3);
    assert!(fht.fullscreen_window(3));
    assert_eq!(slot_on(&fht, 1, 0), Some((3, 2)));
    fht.map_window(4);
    assert_eq!(ids_on(&fht, 1, 0), vec![1, 2, 3, 4]);
}

#[test]
fn fullscreening_another_window_restores_the_first() {
    let mut fht = two_outputs(true);
    for id in 1..=3 {
        assert!(fht.add_pending_window(window(id), 1));
        fht.map_window(id);
    }
    assert!(fht.fullscreen_window(1));
    assert_eq!(ids_on(&fht, 1, 0), vec![2, 3]);
    assert!(fht.fullscreen_window(3));
    assert_eq!(ids_on(&fht, 1, 0), vec![1, 2]);
    assert_eq!(slot_on(&fht, 1, 0), Some((3, 2)));
    assert!(!fht.fullscreen_window(99));
    assert_eq!(slot_on(&fht, 1, 0), Some((3, 2)));
    // The window in the slot is still held by its workspace.
    assert!(fht.has_window(3));
    assert!(fht.ws_for(3).is_some());
}

#[test]
fn restore_fullscreen_by_hand_clamps_to_the_sequence() {
    let mut fht = two_outputs(true);
    for id in 1..=2 {
        assert!(fht.add_pending_window(window(id), 1));
        fht.map_window(id);
    }
    assert!(fht.fullscreen_window(2));
    let ws = fht.ws_mut_for(2).unwrap();
    ws.restore_fullscreen();
    assert!(ws.fullscreen().is_none());
    assert_eq!(ids_on(&fht, 1, 0), vec![1, 2]);
    assert!(fht.ws_mut_for(77).is_none());
}

#[test]
fn ws_for_finds_the_workspace_of_a_window() {
    let mut fht = two_outputs(true);
    for id in 1..=3 {
        assert!(fht.add_pending_window(window(id), 1));
    }
    fht.map_window_with(1, &WindowMapSettings { workspace: Some(4), ..WindowMapSettings::default() });
    fht.map_window_with(
        2,
        &WindowMapSettings { output: Some("HDMI-1".to_string()), ..WindowMapSettings::default() },
    );
    assert_eq!(fht.site_of(1), Some((0, 4)));
    assert_eq!(fht.site_of(2), Some((1, 0)));
    assert_eq!(fht.site_of(3), None);
    let ws = fht.ws_for(1).unwrap();
    assert_eq!(ws.windows().len(), 1);
    assert_eq!(ws.windows()[0].id, 1);
    assert!(ws.has_window(1));
    assert_eq!(ws.index_of(1), Some(0));
    assert!(ws.window(1).is_some());
    assert!(ws.window(2).is_none());
    assert!(fht.ws_for(3).is_none());
    assert!(fht.ws_for(9).is_none());
    assert_eq!(fht.wset_for(1).unwrap().workspace_index_for(1), Some(4));
    assert!(fht.wset_for(1).unwrap().ws_for(2).is_none());
    assert!(fht.wset_for(2).unwrap().has_window(2));
    assert_eq!(fht.wset_for(2).unwrap().window(2).map(|w| w.id), Some(2));
}
