//! The relay of input events.

use eternal_monitor::host::input::{
    desktop_pixel_to_abs, inject, norm_to_output_pixel, resolve, screen_of_output,
    CaptureGeometry, EventDeduper, Injection, InputRelay, Recorder, VirtualScreen, KIND_SCROLL,
    KIND_TOUCH, PHASE_BEGAN, PHASE_ENDED, PHASE_MOVED,
};
use eternal_monitor::wire::v2::control::InputEvent;

fn event(kind: u8, phase: u8, x: u16, y: u16) -> InputEvent {
    InputEvent {
        input_ver: 1,
        kind,
        phase,
        buttons: 1,
        event_id: 1,
        x_norm: x,
        y_norm: y,
        pressure_x1000: 0,
        scroll_dx: 0,
        scroll_dy: 0,
        keycode: 0,
        modifiers: 0,
        client_time_us: 0,
    }
}

const OUTPUT: CaptureGeometry = CaptureGeometry {
    left: 0,
    top: 0,
    width: 1920,
    height: 1080,
};
const SINGLE_SCREEN: VirtualScreen = VirtualScreen {
    left: 0,
    top: 0,
    width: 1920,
    height: 1080,
};

#[test]
fn corners_and_center_map_correctly() {
    assert_eq!(norm_to_output_pixel(0, 0, OUTPUT), (0, 0));
    assert_eq!(norm_to_output_pixel(65_535, 65_535, OUTPUT), (1919, 1079));
    let (cx, cy) = norm_to_output_pixel(32_768, 32_768, OUTPUT);
    assert!((cx - 960).abs() <= 1, "center x {cx}");
    assert!((cy - 540).abs() <= 1, "center y {cy}");
}

#[test]
fn extended_display_offset_is_applied() {
    // Virtual display sits LEFT of the primary at -1920.
    let extended = CaptureGeometry {
        left: -1920,
        top: 0,
        width: 1920,
        height: 1080,
    };
    let screen = VirtualScreen {
        left: -1920,
        top: 0,
        width: 3840,
        height: 1080,
    };
    // Touch at the extended display's center lands in the LEFT half of the
    // virtual screen.
    let (px, py) = norm_to_output_pixel(32_768, 32_768, extended);
    assert!((px - -960).abs() <= 1, "pixel x {px}");
    let (ax, _ay) = desktop_pixel_to_abs(px, py, screen);
    // The left display's center = 25% of the way across the dual-monitor
    // virtual screen (one pixel ≈ 17 abs units; allow ±2 px of rounding).
    assert!(
        (i32::from(ax) - 16_384).abs() <= 40,
        "abs x {ax} should be ~16384"
    );
}

#[test]
fn tap_produces_move_then_click_edges() {
    let began = resolve(
        &event(KIND_TOUCH, PHASE_BEGAN, 100, 100),
        OUTPUT,
        SINGLE_SCREEN,
    );
    assert!(matches!(began[0], Injection::MoveAbs { .. }));
    assert!(matches!(began[1], Injection::LeftDown { .. }));

    let ended = resolve(
        &event(KIND_TOUCH, PHASE_ENDED, 100, 100),
        OUTPUT,
        SINGLE_SCREEN,
    );
    assert!(matches!(ended[1], Injection::LeftUp { .. }));
}

#[test]
fn right_button_flag_makes_right_clicks() {
    let mut e = event(KIND_TOUCH, PHASE_BEGAN, 5, 5);
    e.buttons = 0b10;
    let injections = resolve(&e, OUTPUT, SINGLE_SCREEN);
    assert!(matches!(injections[1], Injection::RightDown { .. }));
}

#[test]
fn scroll_maps_to_wheel_deltas() {
    let mut e = event(KIND_SCROLL, PHASE_MOVED, 0, 0);
    e.scroll_dy = -40;
    e.scroll_dx = 10;
    let injections = resolve(&e, OUTPUT, SINGLE_SCREEN);
    assert!(injections.contains(&Injection::Wheel { delta: -120 }));
    assert!(injections.contains(&Injection::HWheel { delta: 30 }));
}

#[test]
fn relay_resets_dedupe_on_session_change() {
    let mut relay = InputRelay::default();
    let mut e = event(KIND_TOUCH, PHASE_BEGAN, 10, 10);
    e.event_id = 1;
    let mut recorder = Recorder::default();
    let screen = screen_of_output(OUTPUT);
    inject(&mut recorder, &relay.relay(7, &e, OUTPUT, screen)); // injected (MoveAbs + LeftDown)
    inject(&mut recorder, &relay.relay(7, &e, OUTPUT, screen)); // duplicate edge: dropped
    inject(&mut recorder, &relay.relay(8, &e, OUTPUT, screen)); // new session, same event_id: injected
    assert_eq!(recorder.take().len(), 4);
}

#[test]
fn edge_duplicates_are_dropped_moves_pass() {
    let mut dedupe = EventDeduper::default();
    let mut began = event(KIND_TOUCH, PHASE_BEGAN, 0, 0);
    began.event_id = 7;
    assert!(dedupe.accept(&began));
    assert!(!dedupe.accept(&began), "second edge with the same id drops");

    let mut moved = event(KIND_TOUCH, PHASE_MOVED, 1, 1);
    moved.event_id = 7;
    assert!(dedupe.accept(&moved));
    assert!(dedupe.accept(&moved), "moves are not deduped");

    let mut ended = event(KIND_TOUCH, PHASE_ENDED, 2, 2);
    ended.event_id = 8;
    assert!(dedupe.accept(&ended));
}

#[test]
fn a_late_copy_of_an_edge_is_dropped() {
    let mut dedupe = EventDeduper::default();
    let mut began = event(KIND_TOUCH, PHASE_BEGAN, 0, 0);
    began.event_id = 7;
    let mut ended = event(KIND_TOUCH, PHASE_ENDED, 0, 0);
    ended.event_id = 8;
    assert!(dedupe.accept(&began));
    assert!(dedupe.accept(&ended));
    assert!(!dedupe.accept(&began), "the copy came after a later edge");
    assert!(!dedupe.accept(&ended));
    let mut next = began;
    next.event_id = 9;
    assert!(dedupe.accept(&next));
    let mut recorder = Recorder::default();
    recorder.record(&[Injection::Wheel { delta: 3 }]);
    assert_eq!(recorder.peek(), vec![Injection::Wheel { delta: 3 }]);
    assert_eq!(recorder.take().len(), 1);
    assert!(recorder.peek().is_empty());
}
