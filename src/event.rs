//! Events a client sends during a session, and their layout as segments.
//!
//! A frame starts with a header segment of two bytes, the event's kind and
//! the disconnect flag (0 or 1), followed by the kind's fields: one text for
//! a message or an error notice, three texts for a configuration update, and
//! eight little-endian bytes for a keepalive.
use crate::message::MessageError;
use crate::segment::{
    byte_segment, frame_bytes, lemma_text_round_trip, segment_bytes, segment_raw, segment_text,
    text_of, text_segment,
};
use send_it::Segment;
use vstd::prelude::*;
use vstd::utf8::encode_utf8;

verus! {

pub const TAG_MESSAGE: u8 = 0;

pub const TAG_CONFIG: u8 = 1;

pub const TAG_KEEPALIVE: u8 = 2;

pub const TAG_ERROR: u8 = 3;

/// One event read from a client.
#[derive(Debug, Clone)]
pub enum ChatEvent {
    Message { text: String },
    ConfigUpdate { display_name: String, name_color: String, msg_color: String },
    Keepalive { epoch_seconds: u64 },
    ErrorNotice { text: String },
}

pub ghost enum ChatEventView {
    Message { text: Seq<char> },
    ConfigUpdate { display_name: Seq<char>, name_color: Seq<char>, msg_color: Seq<char> },
    Keepalive { epoch_seconds: u64 },
    ErrorNotice { text: Seq<char> },
}

impl View for ChatEvent {
    type V = ChatEventView;

    open spec fn view(&self) -> ChatEventView {
        match self {
            ChatEvent::Message { text } => ChatEventView::Message { text: text@ },
            ChatEvent::ConfigUpdate { display_name, name_color, msg_color } =>
                ChatEventView::ConfigUpdate {
                    display_name: display_name@,
                    name_color: name_color@,
                    msg_color: msg_color@,
                },
            ChatEvent::Keepalive { epoch_seconds } =>
                ChatEventView::Keepalive { epoch_seconds: *epoch_seconds },
            ChatEvent::ErrorNotice { text } => ChatEventView::ErrorNotice { text: text@ },
        }
    }
}

/// An event together with the flag by which the client asks to be
/// disconnected after it.
#[derive(Debug, Clone)]
pub struct EventFrame {
    pub event: ChatEvent,
    pub disconnect: bool,
}

pub open spec fn u64_le_bytes(v: u64) -> Seq<u8> {
    seq![
        v as u8,
        (v >> 8u64) as u8,
        (v >> 16u64) as u8,
        (v >> 24u64) as u8,
        (v >> 32u64) as u8,
        (v >> 40u64) as u8,
        (v >> 48u64) as u8,
        (v >> 56u64) as u8,
    ]
}

pub open spec fn u64_from_le(b: Seq<u8>) -> u64
    recommends
        b.len() == 8,
{
    (b[0] as u64) | ((b[1] as u64) << 8u64) | ((b[2] as u64) << 16u64) | ((b[3] as u64) << 24u64)
        | ((b[4] as u64) << 32u64) | ((b[5] as u64) << 40u64) | ((b[6] as u64) << 48u64) | ((
    b[7] as u64) << 56u64)
}

pub proof fn lemma_u64_le_round_trip(v: u64)
    ensures
        u64_from_le(u64_le_bytes(v)) == v,
{
    let b = u64_le_bytes(v);
    assert(((v as u8) as u64) | ((((v >> 8u64) as u8) as u64) << 8u64) | ((((v >> 16u64) as u8)
        as u64) << 16u64) | ((((v >> 24u64) as u8) as u64) << 24u64) | ((((v >> 32u64) as u8)
        as u64) << 32u64) | ((((v >> 40u64) as u8) as u64) << 40u64) | ((((v >> 48u64) as u8)
        as u64) << 48u64) | ((((v >> 56u64) as u8) as u64) << 56u64) == v) by (bit_vector);
}

pub open spec fn flag_byte(b: bool) -> u8 {
    if b {
        1
    } else {
        0
    }
}

/// The segments of an event frame.
pub open spec fn event_frame(e: ChatEventView, disconnect: bool) -> Seq<Seq<u8>> {
    let d = flag_byte(disconnect);
    match e {
        ChatEventView::Message { text } => seq![seq![TAG_MESSAGE, d], encode_utf8(text)],
        ChatEventView::ConfigUpdate { display_name, name_color, msg_color } => seq![
            seq![TAG_CONFIG, d],
            encode_utf8(display_name),
            encode_utf8(name_color),
            encode_utf8(msg_color),
        ],
        ChatEventView::Keepalive { epoch_seconds } => seq![
            seq![TAG_KEEPALIVE, d],
            u64_le_bytes(epoch_seconds),
        ],
        ChatEventView::ErrorNotice { text } => seq![seq![TAG_ERROR, d], encode_utf8(text)],
    }
}

/// The number of segments a frame of the given kind has, header included.
pub open spec fn event_segment_count(tag: u8) -> nat {
    if tag == TAG_CONFIG {
        4
    } else {
        2
    }
}

/// What a frame reads as: the event and the disconnect flag, or why it
/// cannot be read.
pub open spec fn event_of_frame(f: Seq<Seq<u8>>) -> Result<(ChatEventView, bool), MessageError> {
    if f.len() == 0 {
        Err(MessageError::InvalidSegmentCount)
    } else if f[0].len() != 2 || f[0][1] > 1 {
        Err(MessageError::InvalidPayload)
    } else if f[0][0] > TAG_ERROR {
        Err(MessageError::UnknownTag)
    } else if f.len() != event_segment_count(f[0][0]) {
        Err(MessageError::InvalidSegmentCount)
    } else {
        let d = f[0][1] == 1;
        let tag = f[0][0];
        if tag == TAG_MESSAGE {
            Ok((ChatEventView::Message { text: text_of(f[1]) }, d))
        } else if tag == TAG_CONFIG {
            Ok(
                (
                    ChatEventView::ConfigUpdate {
                        display_name: text_of(f[1]),
                        name_color: text_of(f[2]),
                        msg_color: text_of(f[3]),
                    },
                    d,
                ),
            )
        } else if tag == TAG_KEEPALIVE {
            if f[1].len() != 8 {
                Err(MessageError::InvalidPayload)
            } else {
                Ok((ChatEventView::Keepalive { epoch_seconds: u64_from_le(f[1]) }, d))
            }
        } else {
            Ok((ChatEventView::ErrorNotice { text: text_of(f[1]) }, d))
        }
    }
}

pub(crate) fn header_segment(tag: u8, disconnect: bool) -> (r: Segment)
    ensures
        segment_bytes(r) == seq![tag, flag_byte(disconnect)],
{
    let mut b: Vec<u8> = Vec::new();
    b.push(tag);
    b.push(if disconnect { 1 } else { 0 });
    assert(b@ =~= seq![tag, flag_byte(disconnect)]);
    byte_segment(b)
}

fn u64_segment(v: u64) -> (r: Segment)
    ensures
        segment_bytes(r) == u64_le_bytes(v),
{
    let mut b: Vec<u8> = Vec::new();
    b.push(v as u8);
    b.push((v >> 8) as u8);
    b.push((v >> 16) as u8);
    b.push((v >> 24) as u8);
    b.push((v >> 32) as u8);
    b.push((v >> 40) as u8);
    b.push((v >> 48) as u8);
    b.push((v >> 56) as u8);
    assert(b@ =~= u64_le_bytes(v));
    byte_segment(b)
}

fn read_u64_le(b: &Vec<u8>) -> (r: u64)
    requires
        b@.len() == 8,
    ensures
        r == u64_from_le(b@),
{
    (b[0] as u64) | ((b[1] as u64) << 8) | ((b[2] as u64) << 16) | ((b[3] as u64) << 24) | ((
    b[4] as u64) << 32) | ((b[5] as u64) << 40) | ((b[6] as u64) << 48) | ((b[7] as u64) << 56)
}

impl EventFrame {
    /// Lays the frame out as segments.
    pub fn segmented(&self) -> (r: Vec<Segment>)
        ensures
            frame_bytes(r@) == event_frame(self.event@, self.disconnect),
    {
        let mut segments: Vec<Segment> = Vec::new();
        match &self.event {
            ChatEvent::Message { text } => {
                segments.push(header_segment(TAG_MESSAGE, self.disconnect));
                segments.push(text_segment(text.clone()));
            },
            ChatEvent::ConfigUpdate { display_name, name_color, msg_color } => {
                segments.push(header_segment(TAG_CONFIG, self.disconnect));
                segments.push(text_segment(display_name.clone()));
                segments.push(text_segment(name_color.clone()));
                segments.push(text_segment(msg_color.clone()));
            },
            ChatEvent::Keepalive { epoch_seconds } => {
                segments.push(header_segment(TAG_KEEPALIVE, self.disconnect));
                segments.push(u64_segment(*epoch_seconds));
            },
            ChatEvent::ErrorNotice { text } => {
                segments.push(header_segment(TAG_ERROR, self.disconnect));
                segments.push(text_segment(text.clone()));
            },
        }
        assert(frame_bytes(segments@) =~= event_frame(self.event@, self.disconnect));
        segments
    }

    /// Reads a frame from its segments.
    pub fn from_segments(segments: &Vec<Segment>) -> (r: Result<Self, MessageError>)
        ensures
            match (r, event_of_frame(frame_bytes(segments@))) {
                (Ok(f), Ok((e, d))) => f.event@ == e && f.disconnect == d,
                (Err(x), Err(y)) => x == y,
                _ => false,
            },
    {
        let ghost f = frame_bytes(segments@);
        if segments.len() == 0 {
            return Err(MessageError::InvalidSegmentCount);
        }
        assert(f[0] == segment_bytes(segments@[0]));
        let header = segment_raw(&segments[0]);
        if header.len() != 2 || header[1] > 1 {
            return Err(MessageError::InvalidPayload);
        }
        let tag = header[0];
        let disconnect = header[1] == 1;
        if tag > TAG_ERROR {
            return Err(MessageError::UnknownTag);
        }
        let count: usize = if tag == TAG_CONFIG {
            4
        } else {
            2
        };
        if segments.len() != count {
            return Err(MessageError::InvalidSegmentCount);
        }
        assert(f[1] == segment_bytes(segments@[1]));
        let event = if tag == TAG_MESSAGE {
            ChatEvent::Message { text: segment_text(&segments[1]) }
        } else if tag == TAG_CONFIG {
            assert(f[2] == segment_bytes(segments@[2]));
            assert(f[3] == segment_bytes(segments@[3]));
            ChatEvent::ConfigUpdate {
                display_name: segment_text(&segments[1]),
                name_color: segment_text(&segments[2]),
                msg_color: segment_text(&segments[3]),
            }
        } else if tag == TAG_KEEPALIVE {
            let raw = segment_raw(&segments[1]);
            if raw.len() != 8 {
                return Err(MessageError::InvalidPayload);
            }
            ChatEvent::Keepalive { epoch_seconds: read_u64_le(&raw) }
        } else {
            ChatEvent::ErrorNotice { text: segment_text(&segments[1]) }
        };
        Ok(EventFrame { event, disconnect })
    }
}

/// Laying an event frame out as segments and reading it back gives the same
/// event and flag; so any number of such round trips changes nothing.
pub proof fn lemma_event_round_trip(e: ChatEventView, disconnect: bool)
    ensures
        event_of_frame(event_frame(e, disconnect)) == Ok::<(ChatEventView, bool), MessageError>(
            (e, disconnect),
        ),
{
    match e {
        ChatEventView::Message { text } => lemma_text_round_trip(text),
        ChatEventView::ConfigUpdate { display_name, name_color, msg_color } => {
            lemma_text_round_trip(display_name);
            lemma_text_round_trip(name_color);
            lemma_text_round_trip(msg_color);
        },
        ChatEventView::Keepalive { epoch_seconds } => lemma_u64_le_round_trip(epoch_seconds),
        ChatEventView::ErrorNotice { text } => lemma_text_round_trip(text),
    }
}

} // verus!
