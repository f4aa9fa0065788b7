use btclip::protocol::{decode_frame, encode_frame, FrameError, FrameType};
use btclip::sync::{inbound_action, Inbound, Outbound, SyncState};

fn state(text: &str, hash: u64) -> SyncState {
    SyncState::initial(Some(text.to_string()), Some(hash), None)
}

#[test]
fn inbound_text_frame() {
    let raw = encode_frame(FrameType::Text, "grüß".as_bytes());
    let action = inbound_action(&raw);
    assert!(action.writes_clipboard());
    match action {
        Inbound::SetText(t) => assert_eq!(t, "grüß"),
        _ => panic!("expected text"),
    }
}

#[test]
fn inbound_invalid_utf8_is_dropped() {
    let raw = encode_frame(FrameType::Text, &[0xFF, 0xFE]);
    let action = inbound_action(&raw);
    assert!(!action.writes_clipboard());
    assert!(matches!(action, Inbound::InvalidText));
}

#[test]
fn inbound_image_frame() {
    let raw = encode_frame(FrameType::Image, &[1, 2, 3]);
    let action = inbound_action(&raw);
    assert!(action.writes_clipboard());
    match action {
        Inbound::SetImage(b) => assert_eq!(b, vec![1, 2, 3]),
        _ => panic!("expected image"),
    }
}

#[test]
fn inbound_garbage() {
    assert!(matches!(inbound_action(&[9, 0, 0, 0, 0]), Inbound::Invalid(FrameError::UnknownType(9))));
    assert!(matches!(inbound_action(&[1]), Inbound::Invalid(FrameError::Truncated)));
    assert!(!inbound_action(&[1]).writes_clipboard());
}

#[test]
fn initial_state_choices() {
    let s = SyncState::initial(None, None, None);
    assert_eq!(s.last_text, "");
    assert_eq!(s.last_image_hash, 0);
    let s = SyncState::initial(Some("x".to_string()), None, Some(7));
    assert_eq!(s.last_text, "x");
    assert_eq!(s.last_image_hash, 7);
    let s = SyncState::initial(Some("x".to_string()), Some(3), Some(7));
    assert_eq!(s.last_image_hash, 3);
}

#[test]
fn new_text_is_sent_once() {
    let mut s = state("old", 0);
    let mut echo = false;
    match s.step(&mut echo, Some("new".to_string()), None, None) {
        Outbound::SendText(frame) => {
            let f = decode_frame(&frame).unwrap();
            assert_eq!(f.frame_type, FrameType::Text);
            assert_eq!(f.payload, b"new".to_vec());
        }
        _ => panic!("expected a text frame"),
    }
    assert_eq!(s.last_text, "new");
    assert!(matches!(s.step(&mut echo, Some("new".to_string()), None, None), Outbound::Idle));
}

#[test]
fn empty_or_unreadable_text_is_ignored() {
    let mut s = state("old", 0);
    let mut echo = false;
    assert!(matches!(s.step(&mut echo, Some(String::new()), None, None), Outbound::Idle));
    assert!(matches!(s.step(&mut echo, None, None, None), Outbound::Idle));
    assert_eq!(s.last_text, "old");
}

#[test]
fn echo_of_phone_text_is_suppressed() {
    let mut s = state("old", 0);
    let mut echo = true;
    assert!(matches!(s.step(&mut echo, Some("from phone".to_string()), None, None), Outbound::Suppressed));
    assert!(!echo);
    assert_eq!(s.last_text, "from phone");
    assert!(matches!(s.step(&mut echo, Some("from phone".to_string()), None, None), Outbound::Idle));
}

#[test]
fn echo_flag_waits_for_a_change() {
    let mut s = state("same", 0);
    let mut echo = true;
    assert!(matches!(s.step(&mut echo, Some("same".to_string()), None, None), Outbound::Idle));
    assert!(echo);
}

#[test]
fn image_is_sent_then_recorded() {
    let mut s = state("t", 1);
    let mut echo = false;
    match s.step(&mut echo, None, None, Some((42, vec![9, 9]))) {
        Outbound::SendImage { hash, frame } => {
            assert_eq!(hash, 42);
            assert_eq!(frame, vec![0x02, 0, 0, 0, 2, 9, 9]);
            assert_eq!(s.last_image_hash, 1);
            s.image_sent(hash);
        }
        _ => panic!("expected an image frame"),
    }
    assert_eq!(s.last_image_hash, 42);
    assert_eq!(s.last_text, "t");
}

#[test]
fn file_image_wins_over_clipboard_image() {
    let mut s = state("t", 0);
    let mut echo = false;
    match s.step(&mut echo, None, Some((5, vec![1])), Some((6, vec![2]))) {
        Outbound::SendImage { hash, .. } => assert_eq!(hash, 5),
        _ => panic!("expected an image frame"),
    }
}

#[test]
fn text_wins_over_image() {
    let mut s = state("t", 0);
    let mut echo = false;
    assert!(matches!(s.step(&mut echo, Some("u".to_string()), None, Some((6, vec![2]))), Outbound::SendText(_)));
    assert_eq!(s.last_image_hash, 0);
}

#[test]
fn echo_of_phone_image_is_suppressed() {
    let mut s = state("t", 0);
    let mut echo = true;
    assert!(matches!(s.step(&mut echo, None, None, Some((8, vec![1]))), Outbound::Suppressed));
    assert!(!echo);
    assert_eq!(s.last_image_hash, 8);
}

#[test]
fn change_detection_before_step() {
    let s = state("same", 0);
    assert!(!s.has_change(&Some("same".to_string()), &None, &None));
    assert!(!s.has_change(&Some(String::new()), &None, &None));
    assert!(!s.has_change(&None, &None, &None));
    assert!(s.has_change(&Some("other".to_string()), &None, &None));
    assert!(s.has_change(&None, &None, &Some((1, vec![]))));
    assert!(s.has_change(&None, &Some((1, vec![])), &None));
}
