use mittere::config::{max_connections_limit, Config, General, Server};
use mittere::error::ClientError;
use mittere::message::MessageError;
use mittere::unwrap_or_default;

#[test]
fn missing_sections_take_defaults() {
    let s = Config { general: None, server: None }.settings();
    assert_eq!(s.conn.ip, "0.0.0.0");
    assert_eq!(s.conn.port, 2277);
    assert_eq!(s.max_connections, None);
    assert_eq!(s.motd, "Welcome to the Mittere server!");
    assert!(s.log_chat);
}

#[test]
fn configured_values_are_kept() {
    let c = Config {
        general: Some(General {
            connections: Some(20),
            motd: Some("hi".to_string()),
            show_msgs_on_server: Some(false),
        }),
        server: Some(Server { ip: Some("127.0.0.1".to_string()), port: Some(4000) }),
    };
    let s = c.settings();
    assert_eq!(s.conn.ip, "127.0.0.1");
    assert_eq!(s.conn.port, 4000);
    assert_eq!(s.max_connections, Some(20));
    assert_eq!(s.motd, "hi");
    assert!(!s.log_chat);
}

#[test]
fn negative_connection_count_means_unbounded() {
    assert_eq!(max_connections_limit(-1), None);
    assert_eq!(max_connections_limit(-5), None);
    assert_eq!(max_connections_limit(0), Some(0));
    assert_eq!(max_connections_limit(7), Some(7));
}

#[test]
fn unwrap_or_default_picks_the_value_held() {
    assert_eq!(unwrap_or_default(Some(3), 9), 3);
    assert_eq!(unwrap_or_default(None, 9), 9);
}

#[test]
fn unknown_kind_is_a_protocol_violation() {
    assert_eq!(ClientError::from_message_error(MessageError::UnknownTag), ClientError::ProtocolViolation);
    assert_eq!(
        ClientError::from_message_error(MessageError::InvalidSegmentCount),
        ClientError::InvalidMessage(MessageError::InvalidSegmentCount)
    );
}
