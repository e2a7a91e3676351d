//! The shared server state: id allocation, the registry of active sessions,
//! the connection counter and admission control, with the handshake, the
//! handling of each client event, and disconnection.
use crate::channel::ClientChannel;
use crate::entry::{EntryPoint, EntryPointResponse, ResponseView};
use crate::event::{ChatEvent, EventFrame};
use crate::id_allocator::{IdAllocator, IdPool};
use crate::message::{Message, MessageView};
use crate::registry::{
    all_received, has_id, distinct_ids, took_next, send_to_clients, BroadcastEvent, BroadcastView,
    ClientRegistry, SessionEntry, SessionView,
};
use crate::session::{keepalive_action, KeepaliveAction, SessionState};
use vstd::prelude::*;
use vstd::string::StringExecFns;

verus! {

/// The abstract state of a [`ChatServer`].
pub ghost struct ServerView {
    pub ids: IdPool,
    pub sessions: Seq<SessionView>,
    pub connections: nat,
    pub max_connections: Option<usize>,
    pub version: Seq<char>,
    pub motd: Seq<char>,
    pub default_color: Seq<char>,
}

impl ServerView {
    /// The counter matches the active sessions and stays within the bound;
    /// active sessions hold distinct ids, each live in the allocator.
    pub open spec fn wf(self) -> bool {
        &&& self.ids.wf()
        &&& distinct_ids(self.sessions)
        &&& self.connections == self.sessions.len()
        &&& (self.max_connections matches Some(m) ==> self.connections <= m)
        &&& forall|i: int| 0 <= i < self.sessions.len() ==> self.ids.is_live(#[trigger] self.sessions[i].id)
    }

    /// No session can be let in: the bound is reached, or no id or count is
    /// left to give it.
    pub open spec fn is_full(self) -> bool {
        ||| (self.max_connections matches Some(m) && self.connections >= m)
        ||| !self.ids.can_allocate()
        ||| self.connections >= usize::MAX
    }

    /// The registry entry of a session that has just logged in.
    pub open spec fn new_entry(self, id: usize, username: Seq<char>) -> SessionView {
        SessionView {
            id,
            username,
            display_name: username,
            name_color: self.default_color,
            message_color: self.default_color,
            outbox: Seq::empty(),
        }
    }
}

/// A chat line of the server's own with this text and timestamp.
pub open spec fn notice(text: Seq<char>, stamp: Seq<char>) -> BroadcastView {
    BroadcastView::ChatMessage {
        message: MessageView { message: text, author: "Server"@, timestamp: stamp },
        author_id: None,
    }
}

pub open spec fn connected_text(username: Seq<char>) -> Seq<char> {
    username + " has connected."@
}

pub open spec fn disconnected_text(username: Seq<char>) -> Seq<char> {
    username + " has disconnected."@
}

pub open spec fn server_full_text() -> Seq<char> {
    "server is full"@
}

/// The text and author of a chat line written by a session with these
/// presentation settings.
pub open spec fn chat_line(s: SessionView, text: Seq<char>) -> (Seq<char>, Seq<char>) {
    (s.message_color + text, s.name_color + s.display_name)
}

/// The sessions after session `id` left: its entry is gone, and every other
/// session was sent a notice stamped `stamp` announcing it, and then a
/// `Disconnect` event for it.
pub open spec fn left_with(
    before: Seq<SessionView>,
    after: Seq<SessionView>,
    id: usize,
    stamp: Seq<char>,
) -> bool {
    exists|i: int|
        0 <= i < before.len() && before[i].id == id && after == all_received(
            all_received(
                before.remove(i),
                notice(disconnected_text(before[i].username), stamp),
            ),
            BroadcastView::Disconnect { id },
        )
}

/// The server after session `id` left at the moment stamped `stamp`: its id
/// is back in the allocator, the counter is one lower, the sessions are as
/// `left_with` says, and the settings are unchanged.
pub open spec fn disconnected(before: ServerView, after: ServerView, id: usize, stamp: Seq<char>) -> bool {
    &&& after.ids == before.ids.after_free(id)
    &&& after.connections == before.connections - 1
    &&& left_with(before.sessions, after.sessions, id, stamp)
    &&& after.max_connections == before.max_connections
    &&& after.version == before.version
    &&& after.motd == before.motd
    &&& after.default_color == before.default_color
}

/// Queuing an event for every session keeps the server's invariant.
pub proof fn lemma_broadcast_keeps_wf(v: ServerView, e: BroadcastView)
    requires
        v.wf(),
    ensures
        (ServerView { sessions: all_received(v.sessions, e), ..v }).wf(),
{
    let s = all_received(v.sessions, e);
    assert forall|k: int| 0 <= k < s.len() implies #[trigger] s[k].id == v.sessions[k].id by {}
    assert forall|k: int| 0 <= k < s.len() implies v.ids.is_live(#[trigger] s[k].id) by {
        assert(s[k].id == v.sessions[k].id);
    }
    assert forall|a: int, b: int| 0 <= a < s.len() && 0 <= b < s.len() && a != b implies s[a].id
        != s[b].id by {
        assert(s[a].id == v.sessions[a].id && s[b].id == v.sessions[b].id);
    }
}

/// In every state the server can be in, the connection counter equals the
/// number of active sessions and never exceeds a finite bound, and no two
/// active sessions hold the same id.
pub proof fn lemma_counter_and_ids(v: ServerView)
    requires
        v.wf(),
    ensures
        v.connections == v.sessions.len(),
        v.max_connections matches Some(m) ==> v.connections <= m,
        forall|i: int, j: int|
            0 <= i < v.sessions.len() && 0 <= j < v.sessions.len() && i != j ==> v.sessions[i].id
                != v.sessions[j].id,
{
}

/// A session that has left is no longer registered, so disconnecting it
/// again finds nothing: its notice goes out, and the counter goes down, once.
pub proof fn lemma_disconnect_once(
    before: Seq<SessionView>,
    after: Seq<SessionView>,
    id: usize,
    stamp: Seq<char>,
)
    requires
        distinct_ids(before),
        left_with(before, after, id, stamp),
    ensures
        !has_id(after, id),
        after.len() == before.len() - 1,
{
    let i = choose|i: int|
        0 <= i < before.len() && before[i].id == id && after == all_received(
            all_received(
                before.remove(i),
                notice(disconnected_text(before[i].username), stamp),
            ),
            BroadcastView::Disconnect { id },
        );
    if has_id(after, id) {
        let k = choose|k: int| 0 <= k < after.len() && after[k].id == id;
        assert(after[k].id == before.remove(i)[k].id);
        if k < i {
            assert(before[k].id == id);
        } else {
            assert(before[k + 1].id == id);
        }
    }
}

/// What one client event did to the server and the session.
#[derive(Debug)]
pub enum SessionAction {
    /// The event was applied; keep reading.
    Continue,
    /// The client's chat line went out to the other sessions.
    Relayed(Message),
    /// The client reported an error; it is kept.
    ClientError(String),
    /// The session is over and has been disconnected.
    Closed,
}

/// What the handshake answers and, on a successful login, the new session.
#[derive(Debug)]
pub struct HandshakeOutcome {
    pub response: EntryPointResponse,
    pub session: Option<SessionState>,
}

/// The state shared by the listener and every session: one lock around it
/// keeps the counter, the registry and the allocator in step.
pub struct ChatServer {
    ids: IdAllocator,
    registry: ClientRegistry,
    connections: usize,
    max_connections: Option<usize>,
    version: String,
    motd: String,
    default_color: String,
}

impl View for ChatServer {
    type V = ServerView;

    closed spec fn view(&self) -> ServerView {
        ServerView {
            ids: self.ids@,
            sessions: self.registry@,
            connections: self.connections as nat,
            max_connections: self.max_connections,
            version: self.version@,
            motd: self.motd@,
            default_color: self.default_color@,
        }
    }
}

fn server_notice(text: String, stamp: String) -> (r: BroadcastEvent)
    ensures
        r@ == notice(text@, stamp@),
{
    let author = String::from_str("Server");
    proof {
        reveal_strlit("Server");
    }
    BroadcastEvent::ChatMessage { message: Message::new(text, author, stamp), author_id: None }
}

impl ChatServer {
    pub closed spec fn wf(&self) -> bool {
        &&& self.ids.wf()
        &&& self@.wf()
    }

    /// A well-formed server has a well-formed state: the counter matches the
    /// sessions and its bound, and each active session holds its own live id.
    pub proof fn lemma_view_wf(&self)
        requires
            self.wf(),
        ensures
            self@.wf(),
    {
    }

    /// An empty server. `max_connections` is `None` where the number of
    /// sessions is unbounded; `default_color` is what new sessions' names and
    /// messages are shown in.
    pub fn new(
        max_connections: Option<usize>,
        version: String,
        motd: String,
        default_color: String,
    ) -> (r: Self)
        ensures
            r.wf(),
            r@.ids == (IdPool { next: 0, free: Set::empty() }),
            r@.sessions == Seq::<SessionView>::empty(),
            r@.connections == 0,
            r@.max_connections == max_connections,
            r@.version == version@,
            r@.motd == motd@,
            r@.default_color == default_color@,
    {
        ChatServer {
            ids: IdAllocator::new(),
            registry: ClientRegistry::new(),
            connections: 0,
            max_connections,
            version,
            motd,
            default_color,
        }
    }

    /// The number of active sessions.
    pub fn connections(&self) -> (r: usize)
        ensures
            r == self@.connections,
    {
        self.connections
    }

    /// Whether a new session would be turned away.
    pub fn is_full(&self) -> (r: bool)
        requires
            self.wf(),
        ensures
            r == self@.is_full(),
    {
        let at_bound = match self.max_connections {
            Some(m) => self.connections >= m,
            None => false,
        };
        at_bound || !self.ids.can_allocate() || self.connections == usize::MAX
    }

    /// Whether a session with this id is active.
    pub fn is_active(&self, id: usize) -> (r: bool)
        ensures
            r == has_id(self@.sessions, id),
    {
        self.registry.contains(id)
    }

    /// Answers the first message of a connection. A full server turns every
    /// connection away. A version probe is answered and changes nothing. A
    /// login gets the message of the day, a fresh id and a registry entry,
    /// raises the counter, and every session is told of it by a chat line
    /// stamped `stamp`, the text of the time at `now`.
    pub fn handle_entry_point(&mut self, entry: EntryPoint, now: u64, stamp: String) -> (r:
        HandshakeOutcome)
        requires
            old(self).wf(),
        ensures
            final(self).wf(),
            old(self)@.is_full() ==> r.response@ == (ResponseView::Invalid {
                reason: server_full_text(),
            }) && r.session is None && final(self)@ == old(self)@,
            !old(self)@.is_full() ==> match entry {
                EntryPoint::Version(v) => r.response@ == (ResponseView::PingAck {
                    compatible: v@ == old(self)@.version,
                    server_version: old(self)@.version,
                }) && r.session is None && final(self)@ == old(self)@,
                EntryPoint::Login(l) => {
                    let id = old(self)@.ids.allocated_id();
                    &&& r.response@ == (ResponseView::Valid { motd: old(self)@.motd })
                    &&& r.session matches Some(s) && s.id == id && s.username@ == l.username@
                        && s.last_keepalive_sent == now && !s.awaiting_keepalive_ack
                        && s.measured_latency == 0
                    &&& final(self)@.ids == old(self)@.ids.after_allocate()
                    &&& final(self)@.connections == old(self)@.connections + 1
                    &&& final(self)@.sessions == all_received(
                        old(self)@.sessions.push(old(self)@.new_entry(id, l.username@)),
                        notice(connected_text(l.username@), stamp@),
                    )
                    &&& final(self)@.max_connections == old(self)@.max_connections
                    &&& final(self)@.version == old(self)@.version
                    &&& final(self)@.motd == old(self)@.motd
                    &&& final(self)@.default_color == old(self)@.default_color
                },
            },
    {
        if self.is_full() {
            let reason = String::from_str("server is full");
            proof {
                reveal_strlit("server is full");
            }
            return HandshakeOutcome {
                response: EntryPointResponse::Invalid { reason },
                session: None,
            };
        }
        match entry {
            EntryPoint::Version(v) => {
                let compatible = v == self.version;
                HandshakeOutcome {
                    response: EntryPointResponse::PingAck {
                        compatible,
                        server_version: self.version.clone(),
                    },
                    session: None,
                }
            },
            EntryPoint::Login(l) => {
                let session = self.activate(l.username, now, stamp);
                HandshakeOutcome {
                    response: EntryPointResponse::Valid { motd: self.motd.clone() },
                    session: Some(session),
                }
            },
        }
    }

    /// Makes a logged-in client an active session.
    fn activate(&mut self, username: String, now: u64, stamp: String) -> (s: SessionState)
        requires
            old(self).wf(),
            !old(self)@.is_full(),
        ensures
            final(self).wf(),
            ({
                let id = old(self)@.ids.allocated_id();
                &&& s.id == id && s.username@ == username@ && s.last_keepalive_sent == now
                    && !s.awaiting_keepalive_ack && s.measured_latency == 0
                &&& final(self)@.ids == old(self)@.ids.after_allocate()
                &&& final(self)@.connections == old(self)@.connections + 1
                &&& final(self)@.sessions == all_received(
                    old(self)@.sessions.push(old(self)@.new_entry(id, username@)),
                    notice(connected_text(username@), stamp@),
                )
                &&& final(self)@.max_connections == old(self)@.max_connections
                &&& final(self)@.version == old(self)@.version
                &&& final(self)@.motd == old(self)@.motd
                &&& final(self)@.default_color == old(self)@.default_color
            }),
    {
        proof {
            self.lemma_allocated_id_unused();
            crate::id_allocator::lemma_allocate_issues_unused_id(self@.ids);
        }
        let id = self.ids.allocate();
        let entry = SessionEntry {
            id,
            username: username.clone(),
            display_name: username.clone(),
            name_color: self.default_color.clone(),
            message_color: self.default_color.clone(),
            outbox: ClientChannel::new(),
        };
        assert(entry@.outbox =~= Seq::<BroadcastView>::empty());
        assert(entry@ == old(self)@.new_entry(id, username@));
        self.registry.insert(entry);
        self.connections = self.connections + 1;
        proof {
            let s = self@.sessions;
            assert forall|i: int| 0 <= i < s.len() implies self@.ids.is_live(#[trigger] s[i].id) by {
                if i < old(self)@.sessions.len() {
                    assert(s[i] == old(self)@.sessions[i]);
                }
            }
        }
        let mut text = username.clone();
        text.append(" has connected.");
        proof {
            reveal_strlit(" has connected.");
        }
        let notice = server_notice(text, stamp);
        let ghost before = self@;
        send_to_clients(&mut self.registry, &notice);
        proof {
            lemma_broadcast_keeps_wf(before, notice@);
            assert(self@ == (ServerView { sessions: all_received(before.sessions, notice@), ..before }));
            assert(before.sessions == old(self)@.sessions.push(old(self)@.new_entry(id, username@)));
        }
        SessionState::new(id, username, now)
    }

    /// The id that the next login gets is held by no active session.
    proof fn lemma_allocated_id_unused(&self)
        requires
            self.wf(),
            !self@.is_full(),
        ensures
            !has_id(self@.sessions, self@.ids.allocated_id()),
            self@.max_connections matches Some(m) ==> self@.connections + 1 <= m,
    {
        crate::id_allocator::lemma_allocate_issues_unused_id(self@.ids);
    }

    /// Ends the session with this id: its entry leaves the registry, its id
    /// goes back to the allocator, the counter goes down, and the remaining
    /// sessions are told, first by a chat line and then by a `Disconnect`
    /// event. Where no session has this id (it has already gone), nothing
    /// changes and the result is false, so each session is counted down and
    /// announced once. `stamp` is the text of the current time that the
    /// announcement carries.
    pub fn disconnect(&mut self, id: usize, stamp: String) -> (r: bool)
        requires
            old(self).wf(),
        ensures
            final(self).wf(),
            r == has_id(old(self)@.sessions, id),
            !r ==> final(self)@ == old(self)@,
            r ==> disconnected(old(self)@, final(self)@, id, stamp@),
            !has_id(final(self)@.sessions, id),
    {
        match self.registry.remove(id) {
            None => false,
            Some(entry) => {
                let ghost i = choose|i: int|
                    0 <= i < old(self)@.sessions.len() && old(self)@.sessions[i].id == id
                        && entry@ == old(self)@.sessions[i] && self@.sessions == old(
                        self,
                    )@.sessions.remove(i);
                self.ids.free(id);
                self.connections = self.connections - 1;
                let mut text = entry.username;
                text.append(" has disconnected.");
                proof {
                    reveal_strlit(" has disconnected.");
                }
                let notice = server_notice(text, stamp);
                send_to_clients(&mut self.registry, &notice);
                send_to_clients(&mut self.registry, &BroadcastEvent::Disconnect { id });
                proof {
                    let o = old(self)@.sessions;
                    let s = self@.sessions;
                    assert forall|k: int| 0 <= k < s.len() implies self@.ids.is_live(
                        #[trigger] s[k].id,
                    ) by {
                        if k < i {
                            assert(s[k].id == o[k].id);
                        } else {
                            assert(s[k].id == o[k + 1].id);
                        }
                    }
                    assert(distinct_ids(s)) by {
                        assert forall|a: int, b: int|
                            0 <= a < s.len() && 0 <= b < s.len() && a != b implies s[a].id
                            != s[b].id by {
                            assert(s[a].id == o.remove(i)[a].id && s[b].id == o.remove(i)[b].id);
                        }
                    }
                    assert(left_with(o, s, id, notice@->ChatMessage_message.timestamp));
                    if has_id(s, id) {
                        let k = choose|k: int| 0 <= k < s.len() && s[k].id == id;
                        assert(s[k].id == o.remove(i)[k].id);
                    }
                }
                true
            },
        }
    }

    /// Runs the keepalive timer of a session at time `now`; a client that
    /// left the last probe unanswered for a whole interval is disconnected,
    /// its departure announced with the timestamp `stamp`.
    pub fn keepalive(&mut self, session: &mut SessionState, now: u64, stamp: String) -> (r:
        KeepaliveAction)
        requires
            old(self).wf(),
        ensures
            final(self).wf(),
            r == keepalive_action(
                old(session).awaiting_keepalive_ack,
                old(session).last_keepalive_sent,
                now,
            ),
            r is SendProbe ==> final(session).last_keepalive_sent == now
                && final(session).awaiting_keepalive_ack,
            !(r is SendProbe) ==> *final(session) == *old(session),
            final(session).id == old(session).id,
            !(r is Disconnect) ==> final(self)@ == old(self)@,
            r is Disconnect ==> !has_id(final(self)@.sessions, old(session).id),
            r is Disconnect && has_id(old(self)@.sessions, old(session).id) ==> disconnected(
                old(self)@,
                final(self)@,
                old(session).id,
                stamp@,
            ),
    {
        let action = session.check_keepalive(now);
        if action == KeepaliveAction::Disconnect {
            self.disconnect(session.id, stamp);
        }
        action
    }

    /// Applies one event read from a session's client at time `now`, whose
    /// text is `stamp`. A chat line goes to every session, with the author's
    /// presentation and that timestamp; a
    /// configuration update changes the presentation; a keepalive answer is
    /// taken by the session; an error notice is handed back for the log. A
    /// frame that asks for it, or a session that has already gone, ends the
    /// session.
    pub fn handle_event(
        &mut self,
        session: &mut SessionState,
        frame: EventFrame,
        now: u64,
        stamp: String,
    ) -> (r: SessionAction)
        requires
            old(self).wf(),
        ensures
            final(self).wf(),
            final(session).id == old(session).id,
            !has_id(old(self)@.sessions, old(session).id) ==> r is Closed && final(self)@ == old(
                self,
            )@ && *final(session) == *old(session),
            has_id(old(self)@.sessions, old(session).id) && frame.disconnect ==> r is Closed
                && *final(session) == *old(session) && disconnected(
                old(self)@,
                final(self)@,
                old(session).id,
                stamp@,
            ),
            has_id(old(self)@.sessions, old(session).id) && !frame.disconnect ==> {
                let id = old(session).id;
                let o = old(self)@;
                match frame.event {
                    ChatEvent::Message { text } => exists|i: int|
                        0 <= i < o.sessions.len() && o.sessions[i].id == id && (r matches SessionAction::Relayed(
                            m,
                        ) && (m.message@, m.author@) == chat_line(o.sessions[i], text@)
                            && m.timestamp@ == stamp@
                            && final(self)@ == (ServerView {
                            sessions: all_received(
                                o.sessions,
                                BroadcastView::ChatMessage { message: m@, author_id: Some(id) },
                            ),
                            ..o
                        })) && *final(session) == *old(session),
                    ChatEvent::ConfigUpdate { display_name, name_color, msg_color } => r is Continue
                        && *final(session) == *old(session) && final(self)@.sessions.len()
                        == o.sessions.len() && (forall|i: int|
                        0 <= i < o.sessions.len() ==> #[trigger] final(self)@.sessions[i] == if o.sessions[i].id
                            == id {
                            SessionView {
                                display_name: display_name@,
                                name_color: name_color@,
                                message_color: msg_color@,
                                ..o.sessions[i]
                            }
                        } else {
                            o.sessions[i]
                        }) && final(self)@ == (ServerView {
                        sessions: final(self)@.sessions,
                        ..o
                    }),
                    ChatEvent::Keepalive { .. } => r is Continue && final(self)@ == o && (
                    old(session).awaiting_keepalive_ack ==> *final(session) == (SessionState {
                        awaiting_keepalive_ack: false,
                        measured_latency: crate::session::elapsed(
                            old(session).last_keepalive_sent,
                            now,
                        ),
                        ..*old(session)
                    })) && (!old(session).awaiting_keepalive_ack ==> *final(session) == *old(
                        session,
                    )),
                    ChatEvent::ErrorNotice { text } => (r matches SessionAction::ClientError(t)
                        && t@ == text@) && final(self)@ == o && *final(session) == *old(session),
                }
            },
    {
        let id = session.id;
        let pos = self.registry.position(id);
        let i = match pos {
            None => {
                return SessionAction::Closed;
            },
            Some(i) => i,
        };
        if frame.disconnect {
            self.disconnect(id, stamp);
            return SessionAction::Closed;
        }
        match frame.event {
            ChatEvent::Message { text } => {
                let (message_color, name_color, display_name) = self.registry.presentation(i);
                let mut line = message_color;
                line.append(text.as_str());
                let mut author = name_color;
                author.append(display_name.as_str());
                let message = Message::new(line, author, stamp);
                let event = BroadcastEvent::ChatMessage {
                    message: message.duplicate(),
                    author_id: Some(id),
                };
                send_to_clients(&mut self.registry, &event);
                proof {
                    let s = self@.sessions;
                    let o = old(self)@.sessions;
                    assert forall|k: int| 0 <= k < s.len() implies self@.ids.is_live(
                        #[trigger] s[k].id,
                    ) by {
                        assert(s[k].id == o[k].id);
                    }
                    assert(distinct_ids(s)) by {
                        assert forall|a: int, b: int|
                            0 <= a < s.len() && 0 <= b < s.len() && a != b implies s[a].id
                            != s[b].id by {
                            assert(s[a].id == o[a].id && s[b].id == o[b].id);
                        }
                    }
                }
                SessionAction::Relayed(message)
            },
            ChatEvent::ConfigUpdate { display_name, name_color, msg_color } => {
                self.registry.update_config(id, display_name, name_color, msg_color);
                proof {
                    let s = self@.sessions;
                    let o = old(self)@.sessions;
                    assert forall|k: int| 0 <= k < s.len() implies self@.ids.is_live(
                        #[trigger] s[k].id,
                    ) by {
                        assert(s[k].id == o[k].id);
                    }
                }
                SessionAction::Continue
            },
            ChatEvent::Keepalive { .. } => {
                session.receive_keepalive(now);
                SessionAction::Continue
            },
            ChatEvent::ErrorNotice { text } => SessionAction::ClientError(text),
        }
    }

    /// Tells every session's writer that the server is stopping.
    pub fn shutdown(&mut self)
        requires
            old(self).wf(),
        ensures
            final(self).wf(),
            final(self)@ == (ServerView {
                sessions: all_received(old(self)@.sessions, BroadcastView::Shutdown),
                ..old(self)@
            }),
    {
        send_to_clients(&mut self.registry, &BroadcastEvent::Shutdown);
        proof {
            let s = self@.sessions;
            let o = old(self)@.sessions;
            assert forall|k: int| 0 <= k < s.len() implies self@.ids.is_live(#[trigger] s[k].id) by {
                assert(s[k].id == o[k].id);
            }
            assert(distinct_ids(s)) by {
                assert forall|a: int, b: int|
                    0 <= a < s.len() && 0 <= b < s.len() && a != b implies s[a].id != s[b].id by {
                    assert(s[a].id == o[a].id && s[b].id == o[b].id);
                }
            }
        }
        assert(self@ =~= (ServerView {
            sessions: all_received(old(self)@.sessions, BroadcastView::Shutdown),
            ..old(self)@
        }));
    }

    /// Takes the next event queued for session `id` and decides what its
    /// writer does with it.
    pub fn next_delivery(&mut self, id: usize) -> (r: crate::registry::WriterAction)
        requires
            old(self).wf(),
        ensures
            final(self).wf(),
            took_next(old(self)@.sessions, final(self)@.sessions, id, r),
            final(self)@ == (ServerView { sessions: final(self)@.sessions, ..old(self)@ }),
    {
        let r = self.registry.next_delivery(id);
        proof {
            let s = self@.sessions;
            let o = old(self)@.sessions;
            if has_id(o, id) {
                let i = choose|i: int| 0 <= i < o.len() && o[i].id == id;
                assert(o[i].id == id);
                assert forall|k: int| 0 <= k < s.len() implies s[k].id == o[k].id by {
                    if o[i].outbox.len() > 0 {
                        assert(s == o.update(i, o[i].with_outbox(o[i].outbox.drop_first())));
                    }
                }
                assert forall|k: int| 0 <= k < s.len() implies self@.ids.is_live(#[trigger] s[k].id) by {
                    assert(s[k].id == o[k].id);
                }
            }
        }
        r
    }
}

} // verus!
