use rkvm::backoff::Backoff;
use rkvm::clipboard::{clipboard_packet, plan_clipboard, ClipboardPlan, ClipboardSync, ClipboardType};
use rkvm::dispatch::{lane_capacity, lane_priority, lanes, route};
use rkvm::grab::{add_device, open_access, remove_device, DeviceRegistry, GrabRound};
use rkvm::protocol::{Event, EventKind, MouseButton, Packet};
use rkvm::replay::{replay, replay_key, Platform, ReplayAction};

#[test]
fn routing_follows_event_kind() {
    let m = Packet { id: 1, event: Event::MouseButton { button: MouseButton::Left, pressed: true } };
    let (kind, bytes) = route(&m);
    assert_eq!(kind, EventKind::Mouse);
    assert_eq!(bytes, m.to_vec());
    let t = Packet { id: 0, event: Event::TextClipboard { content: "x".into() } };
    assert_eq!(route(&t).0, EventKind::Misc);
    let k = Packet { id: 2, event: Event::Keyboard { key: 1, pressed: true } };
    assert_eq!(route(&k).0, EventKind::Keyboard);
}

#[test]
fn misc_traffic_leaves_mouse_lane_untouched() {
    let packets = vec![
        Packet { id: 0, event: Event::MouseMotion { dx: 1, dy: 0 } },
        Packet { id: 0, event: Event::ImageClipboard { png: vec![1; 1000] } },
        Packet { id: 1, event: Event::MouseMotion { dx: 2, dy: 0 } },
        Packet { id: 0, event: Event::TextClipboard { content: "big".repeat(100) } },
        Packet { id: 2, event: Event::MouseWheel { dx: 0, dy: 1 } },
    ];
    let mouse: Vec<Vec<u8>> = packets
        .iter()
        .map(route)
        .filter(|(k, _)| *k == EventKind::Mouse)
        .map(|(_, b)| b)
        .collect();
    let expected: Vec<Vec<u8>> = [0usize, 2, 4].iter().map(|&i| packets[i].to_vec()).collect();
    assert_eq!(mouse, expected);
}

#[test]
fn lanes_priorities_and_capacities() {
    assert_eq!(lanes(), vec![EventKind::Mouse, EventKind::Keyboard, EventKind::Misc]);
    assert_eq!(
        lanes().into_iter().map(lane_priority).collect::<Vec<_>>(),
        vec![2, 1, 0]
    );
    assert_eq!(
        lanes().into_iter().map(lane_capacity).collect::<Vec<_>>(),
        vec![120, 30, 30]
    );
}

#[test]
fn registry_add_replace_remove() {
    let mut r = DeviceRegistry::new();
    add_device(&mut r, "/dev/input/event0".into(), 10);
    add_device(&mut r, "/dev/input/event1".into(), 11);
    add_device(&mut r, "/dev/input/event0".into(), 12);
    assert_eq!(r.len(), 2);
    assert_eq!(r.handles(), vec![12, 11]);
    remove_device(&mut r, 12);
    assert_eq!(r.handles(), vec![11]);
    assert_eq!(r.devices[0].path, "/dev/input/event1");
    remove_device(&mut r, 99);
    assert_eq!(r.len(), 1);
}

#[test]
fn grab_partial_failure_completes_other_devices() {
    let mut r = DeviceRegistry::new();
    add_device(&mut r, "/dev/input/event1".into(), 1);
    add_device(&mut r, "/dev/input/event2".into(), 2);
    add_device(&mut r, "/dev/input/event3".into(), 3);
    let mut round = GrabRound::new(&r, true);
    assert_eq!(round.handles, vec![1, 2, 3]);
    assert!(!round.is_complete());
    round.record(1, false);
    assert!(!round.is_complete());
    round.record(2, true);
    round.record(0, true);
    assert!(round.is_complete());
    assert_eq!(round.outcomes, vec![Some(true), Some(false), Some(true)]);
    assert_eq!(round.failures(), vec![1]);
}

#[test]
fn grab_first_report_stands() {
    let mut r = DeviceRegistry::new();
    add_device(&mut r, "a".into(), 1);
    let mut round = GrabRound::new(&r, false);
    round.record(0, false);
    round.record(0, true);
    round.record(5, true);
    assert_eq!(round.outcomes, vec![Some(false)]);
    assert!(!round.enable);
}

#[test]
fn open_access_from_flags() {
    let (rdonly, wronly, rdwr) = (0, 1, 2);
    assert_eq!(open_access(rdwr, rdonly, wronly, rdwr), (true, true));
    assert_eq!(open_access(wronly, rdonly, wronly, rdwr), (false, true));
    assert_eq!(open_access(rdonly, rdonly, wronly, rdwr), (false, false));
}

#[test]
fn backoff_doubles_caps_and_resets() {
    let mut b = Backoff::new();
    assert_eq!(b.after_attempt(false), 1);
    assert_eq!(b.after_attempt(false), 2);
    assert_eq!(b.after_attempt(false), 4);
    assert_eq!(b.after_attempt(true), 1);
    assert_eq!(b.after_attempt(false), 2);
    for _ in 0..10 {
        b.after_attempt(false);
    }
    assert_eq!(b.after_attempt(false), 30);
}

fn targets(names: &[&str]) -> Vec<String> {
    names.iter().map(|s| s.to_string()).collect()
}

#[test]
fn clipboard_plan_prefers_image_then_text() {
    assert_eq!(plan_clipboard(&targets(&["TEXT", "image/png"])), ClipboardPlan::Image);
    assert_eq!(
        plan_clipboard(&targets(&["TEXT", "text/html", "UTF8_STRING"])),
        ClipboardPlan::Html { text_target: "UTF8_STRING".into() }
    );
    assert_eq!(
        plan_clipboard(&targets(&["TARGETS", "text/plain;charset=UTF-8", "TEXT"])),
        ClipboardPlan::Text { text_target: "text/plain;charset=UTF-8".into() }
    );
    assert_eq!(plan_clipboard(&targets(&["text/html"])), ClipboardPlan::Nothing);
    assert_eq!(plan_clipboard(&targets(&[])), ClipboardPlan::Nothing);
}

#[test]
fn clipboard_dedup_by_fingerprint() {
    let mut s = ClipboardSync::new();
    assert!(s.observe(Some(7)));
    assert!(!s.observe(Some(7)));
    assert!(s.observe(None));
    assert!(!s.observe(Some(7)));
    assert!(s.observe(Some(8)));
    assert_eq!(s.last, 8);
}

#[test]
fn clipboard_packets_have_id_zero() {
    let p = clipboard_packet(ClipboardType::HtmlText { html: "<i>a</i>".into(), plain: "a".into() });
    assert_eq!(p.id, 0);
    assert!(matches!(p.event, Event::HtmlClipboard { ref html, ref plain } if html == "<i>a</i>" && plain == "a"));
    let q = clipboard_packet(ClipboardType::PngImage(vec![1, 2]));
    assert!(matches!(q.event, Event::ImageClipboard { ref png } if png == &vec![1, 2]));
    let t = clipboard_packet(ClipboardType::Utf8Text("t".into()));
    assert!(matches!(t.event, Event::TextClipboard { ref content } if content == "t"));
}

#[test]
fn replay_wheel_skips_still_axis() {
    assert_eq!(replay(Event::MouseWheel { dx: 0, dy: -2 }, Platform::Linux), vec![ReplayAction::ScrollY(-2)]);
    assert_eq!(
        replay(Event::MouseWheel { dx: 3, dy: 1 }, Platform::Linux),
        vec![ReplayAction::ScrollX(3), ReplayAction::ScrollY(1)]
    );
    assert_eq!(replay(Event::MouseWheel { dx: 0, dy: 0 }, Platform::Mac), vec![]);
}

#[test]
fn replay_keys_through_table() {
    assert_eq!(
        replay(Event::Keyboard { key: 0x1e, pressed: true }, Platform::Linux),
        vec![ReplayAction::Key { code: 0x26, pressed: true }]
    );
    assert_eq!(
        replay(Event::Keyboard { key: 0x1e, pressed: false }, Platform::Windows),
        vec![ReplayAction::Key { code: 0x1e, pressed: false }]
    );
    assert_eq!(replay(Event::Keyboard { key: 0xfff0, pressed: true }, Platform::Linux), vec![]);
    assert_eq!(replay_key(None, true, Platform::Mac), None);
}

#[test]
fn replay_pointer_and_clipboard() {
    assert_eq!(
        replay(Event::MouseMotion { dx: -4, dy: 9 }, Platform::Linux),
        vec![ReplayAction::MoveRelative { dx: -4, dy: 9 }]
    );
    assert_eq!(
        replay(Event::MouseButton { button: MouseButton::Right, pressed: true }, Platform::Linux),
        vec![ReplayAction::Button { button: MouseButton::Right, pressed: true }]
    );
    assert_eq!(
        replay(Event::TextClipboard { content: "hi".into() }, Platform::Linux),
        vec![ReplayAction::SetText("hi".into())]
    );
    assert_eq!(
        replay(Event::ImageClipboard { png: vec![9] }, Platform::Linux),
        vec![ReplayAction::SetImage(vec![9])]
    );
}

#[test]
fn replay_arrow_key_per_platform() {
    let on = |p| replay(Event::Keyboard { key: 0xe04d, pressed: true }, p);
    assert_eq!(on(Platform::Linux), vec![ReplayAction::Key { code: 0x72, pressed: true }]);
    assert_eq!(on(Platform::Mac), vec![ReplayAction::Key { code: 0x7c, pressed: true }]);
    assert_eq!(on(Platform::Windows), vec![ReplayAction::Key { code: 0xe04d, pressed: true }]);
}
