//! Why a session ends.
use crate::message::MessageError;
use vstd::prelude::*;

verus! {

/// An error fatal to one session and to nothing else.
#[derive(Debug, Clone, PartialEq, Eq)]
pub enum ClientError {
    /// The connection failed; the text says how.
    IoError(String),
    /// A frame could not be read: malformed, or with a wrong segment count.
    InvalidMessage(MessageError),
    /// A frame of a kind that is not expected here.
    ProtocolViolation,
    /// The server was full.
    AdmissionRejected,
    /// The client left a keepalive probe unanswered.
    KeepaliveTimeout,
}

impl ClientError {
    /// The session error for a frame that could not be read: an unknown
    /// kind is a protocol violation, anything else a malformed frame.
    pub fn from_message_error(e: MessageError) -> (r: ClientError)
        ensures
            e is UnknownTag ==> r is ProtocolViolation,
            !(e is UnknownTag) ==> r == ClientError::InvalidMessage(e),
    {
        match e {
            MessageError::UnknownTag => ClientError::ProtocolViolation,
            _ => ClientError::InvalidMessage(e),
        }
    }
}

} // verus!
