use mittere::entry::{EntryPoint, EntryPointResponse, LoginData};
use mittere::event::{ChatEvent, EventFrame};
use mittere::message::{Message, MessageError};
use send_it::Segment;

fn round_trip(frame: &EventFrame) -> EventFrame {
    EventFrame::from_segments(&frame.segmented()).expect("frame reads back")
}

fn same_event(a: &ChatEvent, b: &ChatEvent) -> bool {
    match (a, b) {
        (ChatEvent::Message { text: x }, ChatEvent::Message { text: y }) => x == y,
        (
            ChatEvent::ConfigUpdate { display_name: a1, name_color: a2, msg_color: a3 },
            ChatEvent::ConfigUpdate { display_name: b1, name_color: b2, msg_color: b3 },
        ) => a1 == b1 && a2 == b2 && a3 == b3,
        (ChatEvent::Keepalive { epoch_seconds: x }, ChatEvent::Keepalive { epoch_seconds: y }) => {
            x == y
        }
        (ChatEvent::ErrorNotice { text: x }, ChatEvent::ErrorNotice { text: y }) => x == y,
        _ => false,
    }
}

fn all_variants() -> Vec<EventFrame> {
    vec![
        EventFrame { event: ChatEvent::Message { text: "hello".to_string() }, disconnect: false },
        EventFrame {
            event: ChatEvent::ConfigUpdate {
                display_name: "Ann".to_string(),
                name_color: "\u{1b}[31m".to_string(),
                msg_color: "\u{1b}[97m".to_string(),
            },
            disconnect: false,
        },
        EventFrame { event: ChatEvent::Keepalive { epoch_seconds: 1_700_000_123 }, disconnect: true },
        EventFrame { event: ChatEvent::ErrorNotice { text: "oops ✘".to_string() }, disconnect: false },
    ]
}

#[test]
fn message_event_round_trips() {
    let frame = EventFrame { event: ChatEvent::Message { text: "hello".to_string() }, disconnect: false };
    let back = round_trip(&frame);
    assert!(same_event(&frame.event, &back.event));
    assert!(!back.disconnect);
}

#[test]
fn every_event_kind_round_trips_repeatedly() {
    for frame in all_variants() {
        let once = round_trip(&frame);
        let twice = round_trip(&once);
        let thrice = round_trip(&twice);
        assert!(same_event(&frame.event, &once.event));
        assert!(same_event(&once.event, &twice.event));
        assert!(same_event(&twice.event, &thrice.event));
        assert_eq!(frame.disconnect, thrice.disconnect);
    }
}

#[test]
fn message_event_layout() {
    let frame = EventFrame { event: ChatEvent::Message { text: "hello".to_string() }, disconnect: true };
    let segments = frame.segmented();
    assert_eq!(segments.len(), 2);
    assert_eq!(segments[0].to_raw(), vec![0u8, 1u8]);
    assert_eq!(segments[1].to_raw(), b"hello".to_vec());
}

#[test]
fn keepalive_is_little_endian() {
    let frame = EventFrame { event: ChatEvent::Keepalive { epoch_seconds: 0x0102_0304_0506_0708 }, disconnect: false };
    let segments = frame.segmented();
    assert_eq!(segments[0].to_raw(), vec![2u8, 0u8]);
    assert_eq!(segments[1].to_raw(), vec![8u8, 7, 6, 5, 4, 3, 2, 1]);
}

#[test]
fn empty_frame_is_rejected() {
    let r = EventFrame::from_segments(&Vec::new());
    assert!(matches!(r, Err(MessageError::InvalidSegmentCount)));
}

#[test]
fn unknown_event_kind_is_rejected() {
    let segments = vec![Segment::from(vec![9u8, 0u8]), Segment::from("x".to_string())];
    assert!(matches!(EventFrame::from_segments(&segments), Err(MessageError::UnknownTag)));
}

#[test]
fn wrong_segment_count_is_rejected() {
    let segments = vec![Segment::from(vec![1u8, 0u8]), Segment::from("x".to_string())];
    assert!(matches!(EventFrame::from_segments(&segments), Err(MessageError::InvalidSegmentCount)));
}

#[test]
fn short_keepalive_is_rejected() {
    let segments = vec![Segment::from(vec![2u8, 0u8]), Segment::from(vec![1u8, 2, 3])];
    assert!(matches!(EventFrame::from_segments(&segments), Err(MessageError::InvalidPayload)));
}

#[test]
fn bad_disconnect_flag_is_rejected() {
    let segments = vec![Segment::from(vec![0u8, 2u8]), Segment::from("x".to_string())];
    assert!(matches!(EventFrame::from_segments(&segments), Err(MessageError::InvalidPayload)));
}

#[test]
fn message_segments_round_trip() {
    let m = Message {
        message: "hi there".to_string(),
        author: "bob".to_string(),
        timestamp: "2024-01-02T03:04:05+00:00".to_string(),
    };
    let segments = m.segmented();
    assert_eq!(segments.len(), 3);
    assert_eq!(segments[0].to_raw(), b"hi there".to_vec());
    let back = Message::from_segments(segments).expect("three segments");
    assert_eq!(back.message, "hi there");
    assert_eq!(back.author, "bob");
    assert_eq!(back.timestamp, "2024-01-02T03:04:05+00:00");
}

#[test]
fn message_needs_three_segments() {
    let segments = vec![Segment::from("a".to_string()), Segment::from("b".to_string())];
    assert!(matches!(Message::from_segments(segments), Err(MessageError::InvalidSegmentCount)));
}

#[test]
fn invalid_utf8_reads_lossily() {
    let segments = vec![
        Segment::from(vec![0xffu8, b'a']),
        Segment::from("b".to_string()),
        Segment::from("c".to_string()),
    ];
    let m = Message::from_segments(segments).expect("three segments");
    assert_eq!(m.message, "\u{fffd}a");
}

#[test]
fn new_message_keeps_text_and_author() {
    let m = Message::new("text".to_string(), "me".to_string(), "noon".to_string());
    assert_eq!(m.message, "text");
    assert_eq!(m.author, "me");
    assert_eq!(m.timestamp, "noon");
}

#[test]
fn version_probe_round_trips() {
    let e = EntryPoint::Version("1.0.0".to_string());
    match EntryPoint::from_segments(&e.segmented()) {
        Ok(EntryPoint::Version(v)) => assert_eq!(v, "1.0.0"),
        other => panic!("unexpected {:?}", other),
    }
}

#[test]
fn login_round_trips() {
    let e = EntryPoint::Login(LoginData {
        username: "ann".to_string(),
        passwd: "pw".to_string(),
        signup: true,
        signup_key: "key".to_string(),
    });
    match EntryPoint::from_segments(&e.segmented()) {
        Ok(EntryPoint::Login(l)) => {
            assert_eq!(l.username, "ann");
            assert_eq!(l.passwd, "pw");
            assert!(l.signup);
            assert_eq!(l.signup_key, "key");
        }
        other => panic!("unexpected {:?}", other),
    }
}

#[test]
fn unknown_entry_point_is_rejected() {
    let segments = vec![Segment::from(vec![5u8]), Segment::from("x".to_string())];
    assert!(matches!(EntryPoint::from_segments(&segments), Err(MessageError::UnknownTag)));
}

#[test]
fn responses_round_trip() {
    let ping = EntryPointResponse::PingAck { compatible: true, server_version: "1.0.0".to_string() };
    match EntryPointResponse::from_segments(&ping.segmented()) {
        Ok(EntryPointResponse::PingAck { compatible, server_version }) => {
            assert!(compatible);
            assert_eq!(server_version, "1.0.0");
        }
        other => panic!("unexpected {:?}", other),
    }
    let valid = EntryPointResponse::Valid { motd: "welcome".to_string() };
    match EntryPointResponse::from_segments(&valid.segmented()) {
        Ok(EntryPointResponse::Valid { motd }) => assert_eq!(motd, "welcome"),
        other => panic!("unexpected {:?}", other),
    }
    let invalid = EntryPointResponse::Invalid { reason: "server is full".to_string() };
    match EntryPointResponse::from_segments(&invalid.segmented()) {
        Ok(EntryPointResponse::Invalid { reason }) => assert_eq!(reason, "server is full"),
        other => panic!("unexpected {:?}", other),
    }
}
