use rkvm::codec::DecodeError;
use rkvm::frame::{encode_frame, parse_frame, FrameError, MAX_FRAME_LEN};
use rkvm::protocol::{Event, EventKind, MouseButton, Packet};

fn all_events() -> Vec<Event> {
    vec![
        Event::MouseMotion { dx: -3, dy: 7 },
        Event::MouseWheel { dx: 0, dy: -1 },
        Event::MouseButton { button: MouseButton::Middle, pressed: true },
        Event::Keyboard { key: 0x1e, pressed: false },
        Event::TextClipboard { content: "héllo ✓".to_string() },
        Event::HtmlClipboard { html: "<b>x</b>".to_string(), plain: "x".to_string() },
        Event::ImageClipboard { png: vec![0x89, b'P', b'N', b'G', 0, 255] },
    ]
}

fn same_event(a: &Event, b: &Event) -> bool {
    format!("{:?}", a) == format!("{:?}", b)
}

#[test]
fn classification_of_each_variant() {
    let kinds: Vec<(bool, EventKind)> = all_events().iter().map(|e| (e.is_high_freq(), e.kind())).collect();
    assert_eq!(
        kinds,
        vec![
            (true, EventKind::Mouse),
            (true, EventKind::Mouse),
            (false, EventKind::Mouse),
            (false, EventKind::Keyboard),
            (false, EventKind::Misc),
            (false, EventKind::Misc),
            (false, EventKind::Misc),
        ]
    );
}

#[test]
fn round_trip_every_variant() {
    for (i, event) in all_events().into_iter().enumerate() {
        let p = Packet { id: u64::MAX - i as u64, event };
        let bytes = p.to_vec();
        let q = Packet::from_slice(&bytes).expect("decodes");
        assert_eq!(q.id, p.id);
        assert!(same_event(&q.event, &p.event), "{:?} vs {:?}", q, p);
    }
}

#[test]
fn keyboard_packet_bytes() {
    let p = Packet { id: 5, event: Event::Keyboard { key: 0x1e, pressed: true } };
    assert_eq!(p.to_vec(), vec![5, 0, 0, 0, 0, 0, 0, 0, 3, 0, 0, 0, 0x1e, 0, 1]);
}

#[test]
fn motion_packet_bytes() {
    let p = Packet { id: 1, event: Event::MouseMotion { dx: -1, dy: 2 } };
    assert_eq!(
        p.to_vec(),
        vec![1, 0, 0, 0, 0, 0, 0, 0, 0, 0, 0, 0, 0xff, 0xff, 0xff, 0xff, 2, 0, 0, 0]
    );
}

#[test]
fn text_packet_bytes() {
    let p = Packet { id: 0, event: Event::TextClipboard { content: "é".to_string() } };
    assert_eq!(
        p.to_vec(),
        vec![0, 0, 0, 0, 0, 0, 0, 0, 4, 0, 0, 0, 2, 0, 0, 0, 0, 0, 0, 0, 0xc3, 0xa9]
    );
}

#[test]
fn truncated_input_is_rejected() {
    let bytes = Packet { id: 9, event: Event::HtmlClipboard { html: "a".into(), plain: "b".into() } }.to_vec();
    for k in 0..bytes.len() {
        assert_eq!(Packet::from_slice(&bytes[..k]).unwrap_err(), DecodeError);
    }
}

#[test]
fn trailing_bytes_are_rejected() {
    let mut bytes = Packet { id: 9, event: Event::MouseWheel { dx: 1, dy: 1 } }.to_vec();
    bytes.push(0);
    assert_eq!(Packet::from_slice(&bytes).unwrap_err(), DecodeError);
}

#[test]
fn unknown_tags_are_rejected() {
    let mut bytes = vec![0u8; 8];
    bytes.extend_from_slice(&[7, 0, 0, 0]);
    assert_eq!(Packet::from_slice(&bytes).unwrap_err(), DecodeError);
    let mut button = vec![0u8; 8];
    button.extend_from_slice(&[2, 0, 0, 0, 3, 0, 0, 0, 1]);
    assert_eq!(Packet::from_slice(&button).unwrap_err(), DecodeError);
}

#[test]
fn invalid_values_are_rejected() {
    let mut bad_bool = vec![0u8; 8];
    bad_bool.extend_from_slice(&[3, 0, 0, 0, 0x1e, 0, 2]);
    assert_eq!(Packet::from_slice(&bad_bool).unwrap_err(), DecodeError);
    let mut bad_utf8 = vec![0u8; 8];
    bad_utf8.extend_from_slice(&[4, 0, 0, 0, 1, 0, 0, 0, 0, 0, 0, 0, 0xff]);
    assert_eq!(Packet::from_slice(&bad_utf8).unwrap_err(), DecodeError);
}

#[test]
fn decoded_text_is_the_encoded_text() {
    let mut bytes = vec![0u8; 8];
    bytes.extend_from_slice(&[4, 0, 0, 0, 2, 0, 0, 0, 0, 0, 0, 0, b'o', b'k']);
    match Packet::from_slice(&bytes).unwrap().event {
        Event::TextClipboard { content } => assert_eq!(content, "ok"),
        other => panic!("unexpected {:?}", other),
    }
}

#[test]
fn frame_has_big_endian_length_prefix() {
    assert_eq!(encode_frame(&[1, 2, 3]), vec![0, 0, 0, 3, 1, 2, 3]);
    assert_eq!(encode_frame(&vec![0u8; 258])[..4], [0, 0, 1, 2]);
}

#[test]
fn frame_parse_waits_for_complete_frame() {
    let payload = Packet { id: 2, event: Event::MouseMotion { dx: 1, dy: 1 } }.to_vec();
    let framed = encode_frame(&payload);
    for k in 0..framed.len() {
        assert!(matches!(parse_frame(&framed[..k]), Ok(None)));
    }
    let mut two = framed.clone();
    two.extend_from_slice(&framed);
    match parse_frame(&two) {
        Ok(Some((p, used))) => {
            assert_eq!(p.id, 2);
            assert_eq!(used, framed.len());
        }
        other => panic!("unexpected {:?}", other),
    }
}

#[test]
fn oversized_frame_is_rejected() {
    let n = MAX_FRAME_LEN + 1;
    let header = n.to_be_bytes();
    assert_eq!(parse_frame(&header).unwrap_err(), FrameError::Oversized);
}

#[test]
fn truncated_frame_fails_only_its_lane() {
    let good = encode_frame(&Packet { id: 1, event: Event::Keyboard { key: 2, pressed: true } }.to_vec());
    let full = Packet { id: 1, event: Event::MouseMotion { dx: 4, dy: 4 } }.to_vec();
    let truncated = encode_frame(&full[..full.len() - 2]);

    let mut mouse_lane = truncated.clone();
    mouse_lane.extend_from_slice(&good);
    let mut keyboard_lane = good.clone();
    keyboard_lane.extend_from_slice(&good);

    assert_eq!(parse_frame(&mouse_lane).unwrap_err(), FrameError::Malformed(DecodeError));

    let (first, used) = parse_frame(&keyboard_lane).unwrap().unwrap();
    assert!(matches!(first.event, Event::Keyboard { key: 2, pressed: true }));
    let (second, _) = parse_frame(&keyboard_lane[used..]).unwrap().unwrap();
    assert!(matches!(second.event, Event::Keyboard { key: 2, pressed: true }));
}
