use rkvm::capture::{Capture, CaptureInput, BTN_LEFT, BTN_MIDDLE, BTN_RIGHT};
use rkvm::coalesce::{MotionAccumulator, WheelAccumulator};
use rkvm::keymap::{KeyCodes, RIGHT_CONTROL};
use rkvm::protocol::{Event, MouseButton};

const RIGHT_CTRL_EVDEV: u32 = 97;
const A_EVDEV: u32 = 30;

#[test]
fn motion_emits_on_fourth_feed_and_keeps_remainder() {
    let mut m = MotionAccumulator::new();
    assert_eq!(m.feed(300_000, 0), None);
    assert_eq!(m.feed(300_000, 0), None);
    assert_eq!(m.feed(300_000, 0), None);
    assert_eq!(m.feed(300_000, 0), Some((1, 0)));
    assert_eq!((m.x, m.y), (200_000, 0));
}

#[test]
fn motion_exactly_one_pixel_is_held() {
    let mut m = MotionAccumulator::new();
    assert_eq!(m.feed(1_000_000, 0), None);
    assert_eq!(m.feed(-2_500_000, 0), Some((-1, 0)));
    assert_eq!(m.x, -500_000);
}

#[test]
fn motion_error_stays_within_one_pixel() {
    let mut m = MotionAccumulator::new();
    let mut sent: i64 = 0;
    let mut fed: i64 = 0;
    for i in 0..1000 {
        let d = ((i * 7919) % 900_001) as i32 - 450_000;
        fed += d as i64;
        if let Some((dx, _)) = m.feed(d, 0) {
            sent += dx as i64;
        }
        assert!((fed - sent * 1_000_000).abs() <= 1_000_000);
    }
}

#[test]
fn wheel_emits_one_notch_after_three_feeds() {
    let mut w = WheelAccumulator::new();
    assert_eq!(w.feed(40, 0), None);
    assert_eq!(w.feed(40, 0), None);
    assert_eq!(w.feed(40, 0), Some((1, 0)));
    assert_eq!((w.x, w.y), (0, 0));
}

#[test]
fn wheel_keeps_remainder_per_axis() {
    let mut w = WheelAccumulator::new();
    assert_eq!(w.feed(-250, 30), Some((-2, 0)));
    assert_eq!((w.x, w.y), (-10, 30));
}

fn toggle(c: &mut Capture) -> rkvm::capture::CaptureStep {
    c.handle(CaptureInput::Key { code: RIGHT_CTRL_EVDEV, pressed: true });
    c.handle(CaptureInput::Key { code: RIGHT_CTRL_EVDEV, pressed: false })
}

#[test]
fn right_control_release_toggles_grab() {
    let mut c = Capture::new(true);
    let press = c.handle(CaptureInput::Key { code: RIGHT_CTRL_EVDEV, pressed: true });
    assert!(press.packet.is_none() && press.grab.is_none());
    let on = c.handle(CaptureInput::Key { code: RIGHT_CTRL_EVDEV, pressed: false });
    assert_eq!(on.grab, Some(true));
    assert!(on.fetch_clipboard);
    assert!(on.packet.is_none());
    assert!(c.grabbed);
    let off = toggle(&mut c);
    assert_eq!(off.grab, Some(false));
    assert!(!off.fetch_clipboard);
    assert!(!c.grabbed);
}

#[test]
fn no_clipboard_fetch_without_source() {
    let mut c = Capture::new(false);
    let on = toggle(&mut c);
    assert_eq!(on.grab, Some(true));
    assert!(!on.fetch_clipboard);
}

#[test]
fn keys_forward_only_while_grabbed_with_sequence_ids() {
    let mut c = Capture::new(false);
    assert!(c.handle(CaptureInput::Key { code: A_EVDEV, pressed: true }).packet.is_none());
    toggle(&mut c);
    let a = c.handle(CaptureInput::Key { code: A_EVDEV, pressed: true }).packet.unwrap();
    assert_eq!(a.id, 0);
    assert!(matches!(a.event, Event::Keyboard { key: 0x1e, pressed: true }));
    let b = c.handle(CaptureInput::Key { code: A_EVDEV, pressed: false }).packet.unwrap();
    assert_eq!(b.id, 1);
    assert!(matches!(b.event, Event::Keyboard { key: 0x1e, pressed: false }));
}

#[test]
fn unknown_and_oversized_keys_are_dropped() {
    let mut c = Capture::new(false);
    toggle(&mut c);
    assert!(c.handle(CaptureInput::Key { code: 70_000, pressed: true }).packet.is_none());
    assert!(c.handle_key(None, true).packet.is_none());
    assert_eq!(c.next_id, 0);
}

#[test]
fn toggle_entry_is_never_forwarded() {
    let mut c = Capture::new(false);
    c.grabbed = true;
    let codes = KeyCodes { evdev: 97, xkb: 105, win: 0xe01d, mac: 0x3e, modifier: RIGHT_CONTROL };
    let step = c.handle_key(Some(codes), false);
    assert!(step.packet.is_none());
    assert_eq!(step.grab, Some(false));
}

#[test]
fn pointer_input_ignored_until_grabbed() {
    let mut c = Capture::new(false);
    assert!(c.handle(CaptureInput::Motion { dx: 5_000_000, dy: 0 }).packet.is_none());
    assert_eq!(c.motion.x, 0);
    toggle(&mut c);
    let p = c.handle(CaptureInput::Motion { dx: 2_500_000, dy: -1_200_000 }).packet.unwrap();
    assert!(matches!(p.event, Event::MouseMotion { dx: 2, dy: -1 }));
    let w = c.handle(CaptureInput::Scroll { dx: 0, dy: -120 }).packet.unwrap();
    assert!(matches!(w.event, Event::MouseWheel { dx: 0, dy: -1 }));
    assert_eq!((p.id, w.id), (0, 1));
}

#[test]
fn buttons_map_and_unknown_dropped() {
    let mut c = Capture::new(false);
    toggle(&mut c);
    let l = c.handle(CaptureInput::Button { code: BTN_LEFT, pressed: true }).packet.unwrap();
    assert!(matches!(l.event, Event::MouseButton { button: MouseButton::Left, pressed: true }));
    let r = c.handle(CaptureInput::Button { code: BTN_RIGHT, pressed: false }).packet.unwrap();
    assert!(matches!(r.event, Event::MouseButton { button: MouseButton::Right, pressed: false }));
    let m = c.handle(CaptureInput::Button { code: BTN_MIDDLE, pressed: true }).packet.unwrap();
    assert!(matches!(m.event, Event::MouseButton { button: MouseButton::Middle, pressed: true }));
    assert!(c.handle(CaptureInput::Button { code: 275, pressed: true }).packet.is_none());
}

#[test]
fn ids_wrap_around() {
    let mut c = Capture::new(false);
    toggle(&mut c);
    c.next_id = u64::MAX;
    let p = c.handle(CaptureInput::Button { code: BTN_LEFT, pressed: true }).packet.unwrap();
    assert_eq!(p.id, u64::MAX);
    assert_eq!(c.next_id, 0);
}

#[test]
fn keys_are_sent_by_windows_scan_code() {
    let mut c = Capture::new(false);
    toggle(&mut c);
    let p = c.handle(CaptureInput::Key { code: 0x6a, pressed: true }).packet.unwrap();
    assert!(matches!(p.event, Event::Keyboard { key: 0xe04d, pressed: true }));
}
