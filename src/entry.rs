//! The first message on a new connection and the server's answer to it, and
//! their layout as segments.
//!
//! An entry point starts with a header segment holding its kind (a version
//! probe, or a login with its sign-up flag), followed by the version text or
//! by the username, password and sign-up key. A response starts with a
//! header holding its kind (with the compatibility flag for a probe's
//! answer), followed by one text.
use crate::event::{flag_byte, header_segment};
use crate::message::MessageError;
use crate::segment::{
    byte_segment, frame_bytes, lemma_text_round_trip, segment_bytes, segment_raw, segment_text,
    text_of, text_segment,
};
use send_it::Segment;
use vstd::prelude::*;
use vstd::utf8::encode_utf8;

verus! {

/// A login attempt. Credentials are carried but not checked.
#[derive(Debug, Clone)]
pub struct LoginData {
    pub username: String,
    pub passwd: String,
    pub signup: bool,
    pub signup_key: String,
}

/// The first message a client sends: a version probe or a login attempt.
#[derive(Debug, Clone)]
pub enum EntryPoint {
    Version(String),
    Login(LoginData),
}

/// The server's answer to an [`EntryPoint`].
#[derive(Debug, Clone)]
pub enum EntryPointResponse {
    PingAck { compatible: bool, server_version: String },
    Valid { motd: String },
    Invalid { reason: String },
}

pub ghost enum ResponseView {
    PingAck { compatible: bool, server_version: Seq<char> },
    Valid { motd: Seq<char> },
    Invalid { reason: Seq<char> },
}

impl View for EntryPointResponse {
    type V = ResponseView;

    open spec fn view(&self) -> ResponseView {
        match self {
            EntryPointResponse::PingAck { compatible, server_version } => ResponseView::PingAck {
                compatible: *compatible,
                server_version: server_version@,
            },
            EntryPointResponse::Valid { motd } => ResponseView::Valid { motd: motd@ },
            EntryPointResponse::Invalid { reason } => ResponseView::Invalid { reason: reason@ },
        }
    }
}

pub ghost struct LoginView {
    pub username: Seq<char>,
    pub passwd: Seq<char>,
    pub signup: bool,
    pub signup_key: Seq<char>,
}

pub ghost enum EntryView {
    Version(Seq<char>),
    Login(LoginView),
}

impl View for EntryPoint {
    type V = EntryView;

    open spec fn view(&self) -> EntryView {
        match self {
            EntryPoint::Version(v) => EntryView::Version(v@),
            EntryPoint::Login(l) => EntryView::Login(
                LoginView {
                    username: l.username@,
                    passwd: l.passwd@,
                    signup: l.signup,
                    signup_key: l.signup_key@,
                },
            ),
        }
    }
}

pub const ENTRY_VERSION: u8 = 0;

pub const ENTRY_LOGIN: u8 = 1;

pub const RESPONSE_PING_ACK: u8 = 0;

pub const RESPONSE_VALID: u8 = 1;

pub const RESPONSE_INVALID: u8 = 2;

/// The segments of an entry point.
pub open spec fn entry_frame(e: EntryView) -> Seq<Seq<u8>> {
    match e {
        EntryView::Version(v) => seq![seq![ENTRY_VERSION], encode_utf8(v)],
        EntryView::Login(l) => seq![
            seq![ENTRY_LOGIN, flag_byte(l.signup)],
            encode_utf8(l.username),
            encode_utf8(l.passwd),
            encode_utf8(l.signup_key),
        ],
    }
}

/// What a frame reads as when it opens a connection.
pub open spec fn entry_of_frame(f: Seq<Seq<u8>>) -> Result<EntryView, MessageError> {
    if f.len() == 0 || f[0].len() == 0 {
        Err(MessageError::InvalidSegmentCount)
    } else if f[0][0] == ENTRY_VERSION {
        if f.len() != 2 {
            Err(MessageError::InvalidSegmentCount)
        } else if f[0].len() != 1 {
            Err(MessageError::InvalidPayload)
        } else {
            Ok(EntryView::Version(text_of(f[1])))
        }
    } else if f[0][0] == ENTRY_LOGIN {
        if f.len() != 4 {
            Err(MessageError::InvalidSegmentCount)
        } else if f[0].len() != 2 || f[0][1] > 1 {
            Err(MessageError::InvalidPayload)
        } else {
            Ok(
                EntryView::Login(
                    LoginView {
                        username: text_of(f[1]),
                        passwd: text_of(f[2]),
                        signup: f[0][1] == 1,
                        signup_key: text_of(f[3]),
                    },
                ),
            )
        }
    } else {
        Err(MessageError::UnknownTag)
    }
}

/// The segments of a response.
pub open spec fn response_frame(r: ResponseView) -> Seq<Seq<u8>> {
    match r {
        ResponseView::PingAck { compatible, server_version } => seq![
            seq![RESPONSE_PING_ACK, flag_byte(compatible)],
            encode_utf8(server_version),
        ],
        ResponseView::Valid { motd } => seq![seq![RESPONSE_VALID], encode_utf8(motd)],
        ResponseView::Invalid { reason } => seq![seq![RESPONSE_INVALID], encode_utf8(reason)],
    }
}

/// What a frame reads as when it answers an entry point.
pub open spec fn response_of_frame(f: Seq<Seq<u8>>) -> Result<ResponseView, MessageError> {
    if f.len() == 0 || f[0].len() == 0 {
        Err(MessageError::InvalidSegmentCount)
    } else if f[0][0] > RESPONSE_INVALID {
        Err(MessageError::UnknownTag)
    } else if f.len() != 2 {
        Err(MessageError::InvalidSegmentCount)
    } else if f[0][0] == RESPONSE_PING_ACK {
        if f[0].len() != 2 || f[0][1] > 1 {
            Err(MessageError::InvalidPayload)
        } else {
            Ok(ResponseView::PingAck { compatible: f[0][1] == 1, server_version: text_of(f[1]) })
        }
    } else if f[0].len() != 1 {
        Err(MessageError::InvalidPayload)
    } else if f[0][0] == RESPONSE_VALID {
        Ok(ResponseView::Valid { motd: text_of(f[1]) })
    } else {
        Ok(ResponseView::Invalid { reason: text_of(f[1]) })
    }
}

fn header(kind: u8) -> (r: Segment)
    ensures
        segment_bytes(r) == seq![kind],
{
    let mut b: Vec<u8> = Vec::new();
    b.push(kind);
    assert(b@ =~= seq![kind]);
    byte_segment(b)
}

impl EntryPoint {
    pub fn segmented(&self) -> (r: Vec<Segment>)
        ensures
            frame_bytes(r@) == entry_frame(self@),
    {
        let mut segments: Vec<Segment> = Vec::new();
        match self {
            EntryPoint::Version(v) => {
                segments.push(header(ENTRY_VERSION));
                segments.push(text_segment(v.clone()));
            },
            EntryPoint::Login(l) => {
                segments.push(header_segment(ENTRY_LOGIN, l.signup));
                segments.push(text_segment(l.username.clone()));
                segments.push(text_segment(l.passwd.clone()));
                segments.push(text_segment(l.signup_key.clone()));
            },
        }
        assert(frame_bytes(segments@) =~= entry_frame(self@));
        segments
    }

    pub fn from_segments(segments: &Vec<Segment>) -> (r: Result<Self, MessageError>)
        ensures
            match (r, entry_of_frame(frame_bytes(segments@))) {
                (Ok(e), Ok(v)) => e@ == v,
                (Err(x), Err(y)) => x == y,
                _ => false,
            },
    {
        let ghost f = frame_bytes(segments@);
        if segments.len() == 0 {
            return Err(MessageError::InvalidSegmentCount);
        }
        assert(f[0] == segment_bytes(segments@[0]));
        let head = segment_raw(&segments[0]);
        if head.len() == 0 {
            return Err(MessageError::InvalidSegmentCount);
        }
        if head[0] == ENTRY_VERSION {
            if segments.len() != 2 {
                return Err(MessageError::InvalidSegmentCount);
            }
            if head.len() != 1 {
                return Err(MessageError::InvalidPayload);
            }
            assert(f[1] == segment_bytes(segments@[1]));
            Ok(EntryPoint::Version(segment_text(&segments[1])))
        } else if head[0] == ENTRY_LOGIN {
            if segments.len() != 4 {
                return Err(MessageError::InvalidSegmentCount);
            }
            if head.len() != 2 || head[1] > 1 {
                return Err(MessageError::InvalidPayload);
            }
            assert(f[1] == segment_bytes(segments@[1]));
            assert(f[2] == segment_bytes(segments@[2]));
            assert(f[3] == segment_bytes(segments@[3]));
            Ok(
                EntryPoint::Login(
                    LoginData {
                        username: segment_text(&segments[1]),
                        passwd: segment_text(&segments[2]),
                        signup: head[1] == 1,
                        signup_key: segment_text(&segments[3]),
                    },
                ),
            )
        } else {
            Err(MessageError::UnknownTag)
        }
    }
}

impl EntryPointResponse {
    pub fn segmented(&self) -> (r: Vec<Segment>)
        ensures
            frame_bytes(r@) == response_frame(self@),
    {
        let mut segments: Vec<Segment> = Vec::new();
        match self {
            EntryPointResponse::PingAck { compatible, server_version } => {
                segments.push(header_segment(RESPONSE_PING_ACK, *compatible));
                segments.push(text_segment(server_version.clone()));
            },
            EntryPointResponse::Valid { motd } => {
                segments.push(header(RESPONSE_VALID));
                segments.push(text_segment(motd.clone()));
            },
            EntryPointResponse::Invalid { reason } => {
                segments.push(header(RESPONSE_INVALID));
                segments.push(text_segment(reason.clone()));
            },
        }
        assert(frame_bytes(segments@) =~= response_frame(self@));
        segments
    }

    pub fn from_segments(segments: &Vec<Segment>) -> (r: Result<Self, MessageError>)
        ensures
            match (r, response_of_frame(frame_bytes(segments@))) {
                (Ok(e), Ok(v)) => e@ == v,
                (Err(x), Err(y)) => x == y,
                _ => false,
            },
    {
        let ghost f = frame_bytes(segments@);
        if segments.len() == 0 {
            return Err(MessageError::InvalidSegmentCount);
        }
        assert(f[0] == segment_bytes(segments@[0]));
        let head = segment_raw(&segments[0]);
        if head.len() == 0 {
            return Err(MessageError::InvalidSegmentCount);
        }
        if head[0] > RESPONSE_INVALID {
            return Err(MessageError::UnknownTag);
        }
        if segments.len() != 2 {
            return Err(MessageError::InvalidSegmentCount);
        }
        assert(f[1] == segment_bytes(segments@[1]));
        if head[0] == RESPONSE_PING_ACK {
            if head.len() != 2 || head[1] > 1 {
                return Err(MessageError::InvalidPayload);
            }
            return Ok(
                EntryPointResponse::PingAck {
                    compatible: head[1] == 1,
                    server_version: segment_text(&segments[1]),
                },
            );
        }
        if head.len() != 1 {
            return Err(MessageError::InvalidPayload);
        }
        if head[0] == RESPONSE_VALID {
            Ok(EntryPointResponse::Valid { motd: segment_text(&segments[1]) })
        } else {
            Ok(EntryPointResponse::Invalid { reason: segment_text(&segments[1]) })
        }
    }
}

/// An entry point laid out as segments reads back as the same entry point.
pub proof fn lemma_entry_round_trip(e: EntryView)
    ensures
        entry_of_frame(entry_frame(e)) == Ok::<EntryView, MessageError>(e),
{
    match e {
        EntryView::Version(v) => lemma_text_round_trip(v),
        EntryView::Login(l) => {
            lemma_text_round_trip(l.username);
            lemma_text_round_trip(l.passwd);
            lemma_text_round_trip(l.signup_key);
        },
    }
}

/// A response laid out as segments reads back as the same response.
pub proof fn lemma_response_round_trip(r: ResponseView)
    ensures
        response_of_frame(response_frame(r)) == Ok::<ResponseView, MessageError>(r),
{
    match r {
        ResponseView::PingAck { server_version, .. } => lemma_text_round_trip(server_version),
        ResponseView::Valid { motd } => lemma_text_round_trip(motd),
        ResponseView::Invalid { reason } => lemma_text_round_trip(reason),
    }
}

} // verus!
