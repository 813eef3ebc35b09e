use parblo::inject::{KeyInjector, KeyStroke, PenTracker, ScanCode, scan_code};
use parblo::keys::Key;
use parblo::protocol::PenEvent;

fn pen(in_area: bool, tip_pressed: bool, x: u16) -> PenEvent {
    PenEvent {
        in_area,
        tip_pressed,
        button0_pressed: false,
        button1_pressed: false,
        x,
        y: 7,
        pressure: if tip_pressed { 100 } else { 0 },
        tilt_x: 0,
        tilt_y: 0,
    }
}

#[test]
fn press_then_release_reverses_order() {
    let ctrl = Key::Keyboard(0xa2);
    let z = Key::Keyboard(0x5a);
    let mut injector = KeyInjector::default();
    let down = injector.press(&[ctrl, z]);
    assert_eq!(
        down,
        vec![KeyStroke { key: ctrl, up: false }, KeyStroke { key: z, up: false }]
    );
    let up = injector.release();
    assert_eq!(up, vec![KeyStroke { key: z, up: true }, KeyStroke { key: ctrl, up: true }]);
    assert_eq!(injector.release(), Vec::new());
}

#[test]
fn press_lets_go_of_previous_combination() {
    let a = Key::Keyboard(0x41);
    let mut injector = KeyInjector::default();
    injector.press(&[a]);
    let strokes = injector.press(&[Key::MouseLeft]);
    assert_eq!(
        strokes,
        vec![KeyStroke { key: a, up: true }, KeyStroke { key: Key::MouseLeft, up: false }]
    );
}

#[test]
fn interrupted_press_keeps_only_sent_keys() {
    let a = Key::Keyboard(0x41);
    let b = Key::Keyboard(0x42);
    let mut injector = KeyInjector::default();
    injector.press(&[a, b]);
    injector.press_interrupted(1);
    assert_eq!(injector.release(), vec![KeyStroke { key: a, up: true }]);
}

#[test]
fn scan_codes_split_prefix() {
    assert_eq!(scan_code(0x001e), ScanCode { code: 0x1e, extended: false });
    assert_eq!(scan_code(0xe048), ScanCode { code: 0x48, extended: true });
    assert_eq!(scan_code(0xe11d), ScanCode { code: 0x1d, extended: true });
    assert_eq!(scan_code(0xe248), ScanCode { code: 0x48, extended: false });
}

#[test]
fn hover_then_touch_then_lift_then_leave() {
    let mut tracker = PenTracker::default();
    let frames = tracker.handle(&pen(true, false, 1));
    assert_eq!(frames.len(), 1);
    assert!(frames[0].flags.in_range && frames[0].flags.update && !frames[0].flags.down);
    assert!(!frames[0].in_contact);

    let frames = tracker.handle(&pen(true, true, 2));
    assert_eq!(frames.len(), 1);
    assert!(frames[0].flags.down && frames[0].flags.in_contact && frames[0].in_contact);

    let frames = tracker.handle(&pen(true, true, 3));
    assert!(frames[0].flags.update && !frames[0].flags.down);

    let frames = tracker.handle(&pen(true, false, 4));
    assert!(frames[0].flags.up && !frames[0].flags.in_contact);

    let frames = tracker.handle(&pen(false, false, 0));
    assert_eq!(frames.len(), 1);
    assert!(!frames[0].flags.in_range && frames[0].flags.update);
    assert_eq!(tracker, PenTracker { in_area: false, tip_pressed: false });
}

#[test]
fn entering_with_tip_down_hovers_first() {
    let mut tracker = PenTracker::default();
    let frames = tracker.handle(&pen(true, true, 5));
    assert_eq!(frames.len(), 2);
    assert!(!frames[0].flags.in_contact && frames[0].flags.update && !frames[0].in_contact);
    assert!(frames[1].flags.down && frames[1].in_contact);
    assert_eq!(frames[1].event.x, 5);
}

#[test]
fn leaving_with_tip_down_lifts_it_and_leaving_twice_sends_nothing() {
    let mut tracker = PenTracker::default();
    tracker.handle(&pen(true, true, 5));
    let frames = tracker.leave();
    assert_eq!(frames.len(), 1);
    assert!(frames[0].flags.up && !frames[0].flags.in_range);
    assert_eq!(frames[0].event.x, 0);
    assert!(tracker.leave().is_empty());
}
