//! A chat line as it travels to clients: text, author and timestamp, laid
//! out as three text segments.
use crate::segment::{
    frame_bytes, lemma_text_round_trip, segment_bytes, segment_text, text_of, text_segment,
};
use send_it::Segment;
use vstd::prelude::*;
use vstd::utf8::encode_utf8;

verus! {

/// Why a frame could not be read as a message.
#[derive(Debug, Clone, Copy, PartialEq, Eq, Structural)]
pub enum MessageError {
    /// The frame holds another number of segments than its kind needs.
    InvalidSegmentCount,
    /// The frame's kind tag is none that is known.
    UnknownTag,
    /// A segment's content does not fit its field.
    InvalidPayload,
}

impl MessageError {
    /// A short description for logs.
    pub fn describe(&self) -> (r: String)
        ensures
            r@ == match self {
                MessageError::InvalidSegmentCount => "Invalid segment count"@,
                MessageError::UnknownTag => "Unknown message kind"@,
                MessageError::InvalidPayload => "Invalid message content"@,
            },
    {
        let r = match self {
            MessageError::InvalidSegmentCount => String::from_str("Invalid segment count"),
            MessageError::UnknownTag => String::from_str("Unknown message kind"),
            MessageError::InvalidPayload => String::from_str("Invalid message content"),
        };
        proof {
            reveal_strlit("Invalid segment count");
            reveal_strlit("Unknown message kind");
            reveal_strlit("Invalid message content");
        }
        r
    }
}

/// One chat line.
#[derive(Debug, Clone)]
pub struct Message {
    pub message: String,
    pub author: String,
    pub timestamp: String,
}

/// The content of a [`Message`].
pub ghost struct MessageView {
    pub message: Seq<char>,
    pub author: Seq<char>,
    pub timestamp: Seq<char>,
}

impl View for Message {
    type V = MessageView;

    open spec fn view(&self) -> MessageView {
        MessageView { message: self.message@, author: self.author@, timestamp: self.timestamp@ }
    }
}

/// The segments of a message on the wire: text, author, timestamp.
pub open spec fn message_frame(m: MessageView) -> Seq<Seq<u8>> {
    seq![encode_utf8(m.message), encode_utf8(m.author), encode_utf8(m.timestamp)]
}

/// What a frame reads as.
pub open spec fn message_of_frame(f: Seq<Seq<u8>>) -> Result<MessageView, MessageError> {
    if f.len() != 3 {
        Err(MessageError::InvalidSegmentCount)
    } else {
        Ok(MessageView { message: text_of(f[0]), author: text_of(f[1]), timestamp: text_of(f[2]) })
    }
}

impl Message {
    /// A copy with the same content.
    pub fn duplicate(&self) -> (r: Self)
        ensures
            r@ == self@,
    {
        Message {
            message: self.message.clone(),
            author: self.author.clone(),
            timestamp: self.timestamp.clone(),
        }
    }

    /// A message by `author`, stamped with `timestamp`.
    pub fn new(message: String, author: String, timestamp: String) -> (r: Self)
        ensures
            r@ == (MessageView { message: message@, author: author@, timestamp: timestamp@ }),
    {
        Message { message, author, timestamp }
    }

    pub fn from_segments(segments: Vec<Segment>) -> (r: Result<Self, MessageError>)
        ensures
            r is Ok <==> segments@.len() == 3,
            match (r, message_of_frame(frame_bytes(segments@))) {
                (Ok(m), Ok(v)) => m@ == v,
                (Err(e), Err(f)) => e == f,
                _ => false,
            },
    {
        if segments.len() != 3 {
            return Err(MessageError::InvalidSegmentCount);
        }
        let message = segment_text(&segments[0]);
        let author = segment_text(&segments[1]);
        let timestamp = segment_text(&segments[2]);
        Ok(Message { message, author, timestamp })
    }

    pub fn segmented(&self) -> (r: Vec<Segment>)
        ensures
            frame_bytes(r@) == message_frame(self@),
    {
        let mut segments: Vec<Segment> = Vec::new();
        segments.push(text_segment(self.message.clone()));
        segments.push(text_segment(self.author.clone()));
        segments.push(text_segment(self.timestamp.clone()));
        assert(frame_bytes(segments@) =~= message_frame(self@));
        segments
    }
}

/// A message laid out as segments reads back as the same message.
pub proof fn lemma_message_round_trip(m: MessageView)
    ensures
        message_of_frame(message_frame(m)) == Ok::<MessageView, MessageError>(m),
{
    lemma_text_round_trip(m.message);
    lemma_text_round_trip(m.author);
    lemma_text_round_trip(m.timestamp);
}

} // verus!
