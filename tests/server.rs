use mittere::entry::{EntryPoint, EntryPointResponse, LoginData};
use mittere::event::{ChatEvent, EventFrame};
use mittere::registry::WriterAction;
use mittere::server::{ChatServer, SessionAction};
use mittere::session::{KeepaliveAction, SessionState, KEEPALIVE_INTERVAL};

fn st() -> String {
    "2024-01-01T00:00:00+00:00".to_string()
}

fn server(max: Option<usize>) -> ChatServer {
    ChatServer::new(max, "1.0.0".to_string(), "welcome".to_string(), String::new())
}

fn login_entry(name: &str) -> EntryPoint {
    EntryPoint::Login(LoginData {
        username: name.to_string(),
        passwd: "secret".to_string(),
        signup: false,
        signup_key: String::new(),
    })
}

fn login(s: &mut ChatServer, name: &str, now: u64) -> SessionState {
    let outcome = s.handle_entry_point(login_entry(name), now, st());
    assert!(matches!(outcome.response, EntryPointResponse::Valid { .. }));
    outcome.session.expect("a session")
}

fn say(text: &str) -> EventFrame {
    EventFrame { event: ChatEvent::Message { text: text.to_string() }, disconnect: false }
}

/// Drains a session's queue, returning the texts of the chat lines its writer
/// delivers, and whether the writer was told to stop.
fn drain(s: &mut ChatServer, id: usize) -> (Vec<String>, bool) {
    let mut texts = Vec::new();
    loop {
        match s.next_delivery(id) {
            WriterAction::Deliver(m) => texts.push(m.message),
            WriterAction::Skip => {}
            WriterAction::Idle => return (texts, false),
            WriterAction::Stop => return (texts, true),
        }
    }
}

#[test]
fn version_probe_is_answered_without_a_session() {
    let mut s = server(None);
    let outcome = s.handle_entry_point(EntryPoint::Version("1.0.0".to_string()), 100, st());
    match outcome.response {
        EntryPointResponse::PingAck { compatible, server_version } => {
            assert!(compatible);
            assert_eq!(server_version, "1.0.0");
        }
        other => panic!("unexpected {:?}", other),
    }
    assert!(outcome.session.is_none());
    assert_eq!(s.connections(), 0);
    assert!(!s.is_active(0));
}

#[test]
fn other_version_is_incompatible() {
    let mut s = server(None);
    let outcome = s.handle_entry_point(EntryPoint::Version("0.9.0".to_string()), 100, st());
    assert!(matches!(outcome.response, EntryPointResponse::PingAck { compatible: false, .. }));
}

#[test]
fn full_server_turns_a_login_away() {
    let mut s = server(Some(0));
    assert!(s.is_full());
    let outcome = s.handle_entry_point(login_entry("ann"), 100, st());
    match outcome.response {
        EntryPointResponse::Invalid { reason } => assert_eq!(reason, "server is full"),
        other => panic!("unexpected {:?}", other),
    }
    assert!(outcome.session.is_none());
    assert_eq!(s.connections(), 0);
}

#[test]
fn counter_stays_within_the_bound() {
    let mut s = server(Some(2));
    let a = login(&mut s, "ann", 1);
    let b = login(&mut s, "bob", 1);
    assert_eq!((a.id, b.id), (0, 1));
    assert_eq!(s.connections(), 2);
    let third = s.handle_entry_point(login_entry("cy"), 1, st());
    assert!(matches!(third.response, EntryPointResponse::Invalid { .. }));
    assert_eq!(s.connections(), 2);
    assert!(s.disconnect(a.id, st()));
    assert_eq!(s.connections(), 1);
    let c = login(&mut s, "cy", 2);
    assert_eq!(c.id, 0);
    assert_eq!(s.connections(), 2);
}

#[test]
fn login_gets_motd_and_is_announced() {
    let mut s = server(None);
    let outcome = s.handle_entry_point(login_entry("ann"), 5, st());
    match &outcome.response {
        EntryPointResponse::Valid { motd } => assert_eq!(motd, "welcome"),
        other => panic!("unexpected {:?}", other),
    }
    let a = outcome.session.unwrap();
    assert_eq!(a.username, "ann");
    assert_eq!(a.last_keepalive_sent, 5);
    assert!(!a.awaiting_keepalive_ack);
    let (texts, stopped) = drain(&mut s, a.id);
    assert_eq!(texts, vec!["ann has connected.".to_string()]);
    assert!(!stopped);
}

#[test]
fn broadcast_reaches_others_but_not_the_author() {
    let mut s = server(None);
    let mut a = login(&mut s, "ann", 1);
    let b = login(&mut s, "bob", 1);
    let c = login(&mut s, "cy", 1);
    drain(&mut s, a.id);
    drain(&mut s, b.id);
    drain(&mut s, c.id);
    match s.handle_event(&mut a, say("hello"), 2, st()) {
        SessionAction::Relayed(m) => {
            assert_eq!(m.message, "hello");
            assert_eq!(m.author, "ann");
        }
        other => panic!("unexpected {:?}", other),
    }
    assert_eq!(drain(&mut s, a.id).0, Vec::<String>::new());
    assert_eq!(drain(&mut s, b.id).0, vec!["hello".to_string()]);
    assert_eq!(drain(&mut s, c.id).0, vec!["hello".to_string()]);
}

#[test]
fn messages_arrive_in_the_order_sent() {
    let mut s = server(None);
    let mut a = login(&mut s, "ann", 1);
    let b = login(&mut s, "bob", 1);
    drain(&mut s, b.id);
    s.handle_event(&mut a, say("m1"), 2, st());
    s.handle_event(&mut a, say("m2"), 3, st());
    assert_eq!(drain(&mut s, b.id).0, vec!["m1".to_string(), "m2".to_string()]);
}

#[test]
fn config_update_changes_how_lines_are_shown() {
    let mut s = server(None);
    let mut a = login(&mut s, "ann", 1);
    let update = EventFrame {
        event: ChatEvent::ConfigUpdate {
            display_name: "Annie".to_string(),
            name_color: "<n>".to_string(),
            msg_color: "<m>".to_string(),
        },
        disconnect: false,
    };
    assert!(matches!(s.handle_event(&mut a, update, 2, st()), SessionAction::Continue));
    match s.handle_event(&mut a, say("hi"), 3, st()) {
        SessionAction::Relayed(m) => {
            assert_eq!(m.message, "<m>hi");
            assert_eq!(m.author, "<n>Annie");
        }
        other => panic!("unexpected {:?}", other),
    }
}

#[test]
fn error_notice_is_handed_back() {
    let mut s = server(None);
    let mut a = login(&mut s, "ann", 1);
    let frame = EventFrame { event: ChatEvent::ErrorNotice { text: "bad".to_string() }, disconnect: false };
    match s.handle_event(&mut a, frame, 2, st()) {
        SessionAction::ClientError(t) => assert_eq!(t, "bad"),
        other => panic!("unexpected {:?}", other),
    }
    assert!(s.is_active(a.id));
}

#[test]
fn disconnect_flag_ends_the_session() {
    let mut s = server(None);
    let mut a = login(&mut s, "ann", 1);
    let frame = EventFrame { event: ChatEvent::Message { text: "bye".to_string() }, disconnect: true };
    assert!(matches!(s.handle_event(&mut a, frame, 2, st()), SessionAction::Closed));
    assert!(!s.is_active(a.id));
    assert_eq!(s.connections(), 0);
}

#[test]
fn disconnect_is_announced_once() {
    let mut s = server(None);
    let a = login(&mut s, "ann", 1);
    let b = login(&mut s, "bob", 1);
    drain(&mut s, b.id);
    assert!(s.disconnect(a.id, st()));
    assert!(!s.disconnect(a.id, st()));
    assert_eq!(s.connections(), 1);
    assert_eq!(drain(&mut s, b.id).0, vec!["ann has disconnected.".to_string()]);
    assert!(matches!(s.next_delivery(a.id), WriterAction::Stop));
}

#[test]
fn keepalive_probe_then_timeout() {
    let mut s = server(None);
    let mut a = login(&mut s, "ann", 100);
    let b = login(&mut s, "bob", 100);
    drain(&mut s, b.id);
    assert_eq!(s.keepalive(&mut a, 100 + KEEPALIVE_INTERVAL - 1, st()), KeepaliveAction::Wait);
    assert_eq!(
        s.keepalive(&mut a, 100 + KEEPALIVE_INTERVAL, st()),
        KeepaliveAction::SendProbe { epoch_seconds: 100 + KEEPALIVE_INTERVAL }
    );
    assert!(a.awaiting_keepalive_ack);
    assert_eq!(s.keepalive(&mut a, 100 + 2 * KEEPALIVE_INTERVAL - 1, st()), KeepaliveAction::Wait);
    assert_eq!(s.keepalive(&mut a, 100 + 2 * KEEPALIVE_INTERVAL, st()), KeepaliveAction::Disconnect);
    assert!(!s.is_active(a.id));
    assert_eq!(s.connections(), 1);
    assert_eq!(drain(&mut s, b.id).0, vec!["ann has disconnected.".to_string()]);
    assert!(!s.disconnect(a.id, st()));
}

#[test]
fn keepalive_answer_records_latency() {
    let mut s = server(None);
    let mut a = login(&mut s, "ann", 100);
    s.keepalive(&mut a, 120, st());
    let answer = EventFrame { event: ChatEvent::Keepalive { epoch_seconds: 121 }, disconnect: false };
    assert!(matches!(s.handle_event(&mut a, answer, 123, st()), SessionAction::Continue));
    assert!(!a.awaiting_keepalive_ack);
    assert_eq!(a.measured_latency, 3);
    assert_eq!(s.keepalive(&mut a, 139, st()), KeepaliveAction::Wait);
    assert!(s.is_active(a.id));
}

#[test]
fn unexpected_keepalive_is_ignored() {
    let mut s = server(None);
    let mut a = login(&mut s, "ann", 100);
    let answer = EventFrame { event: ChatEvent::Keepalive { epoch_seconds: 101 }, disconnect: false };
    assert!(matches!(s.handle_event(&mut a, answer, 105, st()), SessionAction::Continue));
    assert_eq!(a.measured_latency, 0);
    assert_eq!(a.last_keepalive_sent, 100);
}

#[test]
fn shutdown_stops_every_writer() {
    let mut s = server(None);
    let a = login(&mut s, "ann", 1);
    let b = login(&mut s, "bob", 1);
    s.shutdown();
    assert!(drain(&mut s, a.id).1);
    assert!(drain(&mut s, b.id).1);
}

#[test]
fn event_from_a_gone_session_closes_it() {
    let mut s = server(None);
    let mut a = login(&mut s, "ann", 1);
    s.disconnect(a.id, st());
    assert!(matches!(s.handle_event(&mut a, say("late"), 2, st()), SessionAction::Closed));
}

#[test]
fn lines_carry_the_given_timestamp() {
    let mut s = server(None);
    let outcome = s.handle_entry_point(login_entry("ann"), 1, "T1".to_string());
    let mut a = outcome.session.unwrap();
    match s.next_delivery(a.id) {
        WriterAction::Deliver(m) => {
            assert_eq!(m.author, "Server");
            assert_eq!(m.timestamp, "T1");
        }
        other => panic!("unexpected {:?}", other),
    }
    match s.handle_event(&mut a, say("x"), 2, "T2".to_string()) {
        SessionAction::Relayed(m) => assert_eq!(m.timestamp, "T2"),
        other => panic!("unexpected {:?}", other),
    }
}
