//! Per-session keepalive bookkeeping: when to probe a client, when to give
//! it up, and the latency measured from its answer.
use vstd::prelude::*;

verus! {

/// Seconds between keepalive probes.
pub const KEEPALIVE_INTERVAL: u64 = 20;

/// What the keepalive timer asks for.
#[derive(Debug, Clone, Copy, PartialEq, Eq, Structural)]
pub enum KeepaliveAction {
    /// Nothing is due yet.
    Wait,
    /// Send a keepalive probe stamped with this time.
    SendProbe { epoch_seconds: u64 },
    /// The client did not answer the last probe: it is presumed dead.
    Disconnect,
}

/// The state a session's loop keeps for itself.
#[derive(Debug)]
pub struct SessionState {
    pub id: usize,
    pub username: String,
    /// When the last probe was sent, in seconds since the epoch.
    pub last_keepalive_sent: u64,
    pub awaiting_keepalive_ack: bool,
    /// Seconds between the last answered probe and its answer.
    pub measured_latency: u64,
}

/// Seconds from `from` to `to`; a clock that went back counts as no time.
pub open spec fn elapsed(from: u64, to: u64) -> u64 {
    if to >= from {
        (to - from) as u64
    } else {
        0
    }
}

/// The timer's decision at time `now`.
pub open spec fn keepalive_action(awaiting: bool, last_sent: u64, now: u64) -> KeepaliveAction {
    if elapsed(last_sent, now) < KEEPALIVE_INTERVAL {
        KeepaliveAction::Wait
    } else if !awaiting {
        KeepaliveAction::SendProbe { epoch_seconds: now }
    } else {
        KeepaliveAction::Disconnect
    }
}

impl SessionState {
    /// A session that has just become active at time `now`.
    pub fn new(id: usize, username: String, now: u64) -> (r: Self)
        ensures
            r.id == id,
            r.username@ == username@,
            r.last_keepalive_sent == now,
            !r.awaiting_keepalive_ack,
            r.measured_latency == 0,
    {
        SessionState {
            id,
            username,
            last_keepalive_sent: now,
            awaiting_keepalive_ack: false,
            measured_latency: 0,
        }
    }

    /// Runs the keepalive timer at time `now`. Sending a probe resets the
    /// timer and marks an answer as awaited; nothing else changes the state.
    pub fn check_keepalive(&mut self, now: u64) -> (r: KeepaliveAction)
        ensures
            r == keepalive_action(old(self).awaiting_keepalive_ack, old(self).last_keepalive_sent, now),
            r is SendProbe ==> final(self).last_keepalive_sent == now
                && final(self).awaiting_keepalive_ack && final(self).id == old(self).id
                && final(self).username == old(self).username
                && final(self).measured_latency == old(self).measured_latency,
            !(r is SendProbe) ==> *final(self) == *old(self),
    {
        let since = if now >= self.last_keepalive_sent {
            now - self.last_keepalive_sent
        } else {
            0
        };
        if since < KEEPALIVE_INTERVAL {
            KeepaliveAction::Wait
        } else if !self.awaiting_keepalive_ack {
            self.last_keepalive_sent = now;
            self.awaiting_keepalive_ack = true;
            KeepaliveAction::SendProbe { epoch_seconds: now }
        } else {
            KeepaliveAction::Disconnect
        }
    }

    /// Takes a keepalive answer received at time `now`. An answer that was
    /// not awaited is ignored; one that was clears the wait and records the
    /// time since the probe was sent.
    pub fn receive_keepalive(&mut self, now: u64)
        ensures
            old(self).awaiting_keepalive_ack ==> *final(self) == (SessionState {
                awaiting_keepalive_ack: false,
                measured_latency: elapsed(old(self).last_keepalive_sent, now),
                ..*old(self)
            }),
            !old(self).awaiting_keepalive_ack ==> *final(self) == *old(self),
    {
        if self.awaiting_keepalive_ack {
            self.measured_latency = if now >= self.last_keepalive_sent {
                now - self.last_keepalive_sent
            } else {
                0
            };
            self.awaiting_keepalive_ack = false;
        }
    }
}

/// A client that sends nothing is given up within two keepalive intervals:
/// at a check one interval after the last probe either it is disconnected at
/// once, or a probe goes out and the check one interval after that
/// disconnects it.
pub proof fn lemma_silent_client_dropped(awaiting: bool, last_sent: u64, t1: u64, t2: u64)
    requires
        t1 >= last_sent + KEEPALIVE_INTERVAL,
        t2 >= t1 + KEEPALIVE_INTERVAL,
    ensures
        keepalive_action(awaiting, last_sent, t1) is Disconnect || (keepalive_action(
            awaiting,
            last_sent,
            t1,
        ) == KeepaliveAction::SendProbe { epoch_seconds: t1 } && keepalive_action(true, t1, t2)
            is Disconnect),
{
}

/// While a probe is awaited, nothing but a disconnect can follow once an
/// interval has passed since it was sent; before that the timer waits.
pub proof fn lemma_unanswered_probe(last_sent: u64, now: u64)
    ensures
        keepalive_action(true, last_sent, now) is Disconnect <==> elapsed(last_sent, now)
            >= KEEPALIVE_INTERVAL,
        keepalive_action(true, last_sent, now) is Wait <==> elapsed(last_sent, now)
            < KEEPALIVE_INTERVAL,
{
}

} // verus!
