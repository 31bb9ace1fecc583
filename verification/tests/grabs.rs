use fht_compositor::focus::FocusTarget;
use fht_compositor::geometry::{Point, Rect};
use fht_compositor::grabs::{GrabFocus, GrabKind, GrabStartData, MoveSurfaceGrab, PointerGrab};
use fht_compositor::output::Output;
use fht_compositor::shell::MoveRequestOutcome;
use fht_compositor::state::{Fht, State};
use fht_compositor::window::FhtWindow;

fn start_data(client: u32) -> GrabStartData {
    GrabStartData {
        focus: Some(GrabFocus { target: FocusTarget::Window(1), client, origin: Point::new(10, 20) }),
        button: 272,
        location: Point::new(15, 25),
    }
}

fn click(serial: u32, client: u32) -> PointerGrab {
    PointerGrab { serial, start_data: start_data(client), kind: GrabKind::Click }
}

fn state_with(window: FhtWindow, grab: Option<PointerGrab>) -> State {
    let mut fht = Fht::new(true);
    assert!(fht.add_output(Output::new(1, "DP-1".to_string(), Rect::new(0, 0, 1920, 1080))));
    let id = window.id;
    assert!(fht.add_pending_window(window, 1));
    fht.map_window(id);
    fht.set_pointer_grab(grab);
    fht.set_pointer_location(Point::new(640, 480));
    State::new(fht)
}

fn plain_window() -> FhtWindow {
    FhtWindow::new(1, 7, "editor".to_string(), "app".to_string(), 100, Rect::new(10, 20, 300, 200))
}

fn the_window(state: &State) -> &FhtWindow {
    state.fht().ws_for(1).unwrap().window(1).unwrap()
}

#[test]
fn a_move_starts_at_the_window_location() {
    let mut state = state_with(plain_window(), Some(click(5, 7)));
    let outcome = state.handle_move_request(1, 5);
    let grab = MoveSurfaceGrab {
        start_data: start_data(7),
        window: 1,
        initial_window_location: Point::new(10, 20),
    };
    assert_eq!(outcome, Some(MoveRequestOutcome { grab, configure: false }));
    assert_eq!(
        state.fht().pointer().grab,
        Some(PointerGrab {
            serial: 5,
            start_data: start_data(7),
            kind: GrabKind::Move { window: 1, initial_window_location: Point::new(10, 20) },
        })
    );
    assert!(state.fht().pointer().has_grab(5));
    assert_eq!(state.fht().pointer().grab_start_data(), Some(start_data(7)));
    assert_eq!(state.fht().pointer().location, Point::new(640, 480));
}

#[test]
fn a_maximized_window_jumps_to_the_pointer() {
    let mut window = plain_window();
    window.set_maximized(true);
    let mut state = state_with(window, Some(click(5, 7)));
    // Mapping set the fullscreen output; the move clears it again.
    let outcome = state.handle_move_request(1, 5).unwrap();
    assert!(outcome.configure);
    assert_eq!(outcome.grab.initial_window_location, Point::new(640, 480));
    assert!(!the_window(&state).is_maximized());
    assert!(!the_window(&state).is_fullscreen());
    assert_eq!(the_window(&state).fullscreen_output, None);
    assert_eq!(the_window(&state).global_geometry(), Rect::new(10, 20, 300, 200));
}

#[test]
fn a_fullscreen_window_leaves_fullscreen() {
    let mut state = state_with(plain_window(), Some(click(5, 7)));
    let mut fht = state.into_fht();
    assert!(fht.fullscreen_window(1));
    let ws = fht.ws_mut_for(1).unwrap();
    assert_eq!(ws.fullscreen().map(|f| f.inner().id), Some(1));
    state = State::new(fht);
    let first = state.handle_move_request(1, 5).unwrap();
    assert!(!first.configure);

    let mut window = plain_window();
    window.id = 2;
    window.set_fullscreen(true, Some(3));
    let mut fht = Fht::new(true);
    assert!(fht.add_output(Output::new(1, "DP-1".to_string(), Rect::new(0, 0, 1920, 1080))));
    assert!(fht.add_pending_window(window, 1));
    fht.map_window_with(
        2,
        &fht_compositor::rules::WindowMapSettings {
            fullscreen: true,
            ..fht_compositor::rules::WindowMapSettings::default()
        },
    );
    fht.set_pointer_grab(Some(click(9, 7)));
    fht.set_pointer_location(Point::new(-3, 8));
    let mut state = State::new(fht);
    assert!(state.fht().ws_for(2).unwrap().window(2).unwrap().is_fullscreen());
    let outcome = state.handle_move_request(2, 9).unwrap();
    assert!(outcome.configure);
    assert_eq!(outcome.grab.initial_window_location, Point::new(-3, 8));
    assert!(!state.fht().ws_for(2).unwrap().window(2).unwrap().is_fullscreen());
}

#[test]
fn a_stale_serial_is_dropped() {
    let mut state = state_with(plain_window(), Some(click(5, 7)));
    let before = format!("{:?}", state);
    assert_eq!(state.handle_move_request(1, 4), None);
    assert_eq!(format!("{:?}", state), before);
}

#[test]
fn no_grab_no_move() {
    let mut state = state_with(plain_window(), None);
    let before = format!("{:?}", state);
    assert_eq!(state.handle_move_request(1, 5), None);
    assert_eq!(format!("{:?}", state), before);
    assert!(!state.fht().pointer().has_grab(5));
    assert_eq!(state.fht().pointer().grab_start_data(), None);
}

#[test]
fn another_clients_grab_is_dropped() {
    let mut state = state_with(plain_window(), Some(click(5, 8)));
    let before = format!("{:?}", state);
    assert_eq!(state.handle_move_request(1, 5), None);
    assert_eq!(format!("{:?}", state), before);
    let mut unfocused = click(5, 7);
    unfocused.start_data.focus = None;
    let mut state = state_with(plain_window(), Some(unfocused));
    assert_eq!(state.handle_move_request(1, 5), None);
}

#[test]
fn an_unknown_or_dead_window_is_dropped() {
    let mut state = state_with(plain_window(), Some(click(5, 7)));
    let before = format!("{:?}", state);
    assert_eq!(state.handle_move_request(2, 5), None);
    assert_eq!(format!("{:?}", state), before);
    let mut dead = plain_window();
    dead.surface = None;
    let mut state = state_with(dead, Some(click(5, 7)));
    assert_eq!(state.handle_move_request(1, 5), None);
}
