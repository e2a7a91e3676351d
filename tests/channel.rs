use mittere::channel::ClientChannel;
use mittere::registry::{writer_decision, BroadcastEvent, WriterAction};
use mittere::message::Message;

fn chat(text: &str, author_id: Option<usize>) -> BroadcastEvent {
    BroadcastEvent::ChatMessage {
        message: Message { message: text.to_string(), author: "a".to_string(), timestamp: String::new() },
        author_id,
    }
}

#[test]
fn channel_is_first_in_first_out() {
    let mut c = ClientChannel::new();
    assert!(c.receive().is_none());
    c.send(chat("one", None));
    c.send(BroadcastEvent::Shutdown);
    assert_eq!(c.len(), 2);
    assert!(matches!(c.receive(), Some(BroadcastEvent::ChatMessage { .. })));
    assert!(matches!(c.receive(), Some(BroadcastEvent::Shutdown)));
    assert!(c.receive().is_none());
}

#[test]
fn writer_skips_its_own_lines_and_others_disconnects() {
    assert!(matches!(writer_decision(1, chat("x", Some(1))), WriterAction::Skip));
    assert!(matches!(writer_decision(1, chat("x", Some(2))), WriterAction::Deliver(_)));
    assert!(matches!(writer_decision(1, chat("x", None)), WriterAction::Deliver(_)));
    assert!(matches!(writer_decision(1, BroadcastEvent::Disconnect { id: 2 }), WriterAction::Skip));
    assert!(matches!(writer_decision(1, BroadcastEvent::Disconnect { id: 1 }), WriterAction::Stop));
    assert!(matches!(writer_decision(1, BroadcastEvent::Shutdown), WriterAction::Stop));
}
