//! Server-side session core of a small TCP chat relay: identifier recycling,
//! the client registry and its broadcast fan-out, the connection handshake,
//! admission control, keepalive policy and the frame layout of wire messages.

pub mod channel;
pub mod config;
pub mod error;
pub mod id_allocator;
pub mod message;
pub mod segment;
pub mod event;
pub mod registry;
pub mod entry;
pub mod session;
pub mod server;

use vstd::prelude::*;

verus! {

/// The value held, or `default` where there is none.
pub fn unwrap_or_default<T>(opt: Option<T>, default: T) -> (r: T)
    ensures
        r == match opt {
            Some(t) => t,
            None => default,
        },
{
    match opt {
        Some(t) => t,
        None => default,
    }
}

} // verus!
