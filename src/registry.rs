//! The registry of active sessions, each with its own queue of outbound
//! events, and the fan-out that delivers one event to every session.
use crate::channel::ClientChannel;
use crate::message::{Message, MessageView};
use vstd::prelude::*;

verus! {

/// An event on the shared fan-out path.
#[derive(Debug, Clone)]
pub enum BroadcastEvent {
    /// A chat line; `author_id` is the session that wrote it, `None` for a
    /// notice of the server's own.
    ChatMessage { message: Message, author_id: Option<usize> },
    /// The session with this id has gone.
    Disconnect { id: usize },
    /// The server is stopping.
    Shutdown,
}

pub ghost enum BroadcastView {
    ChatMessage { message: MessageView, author_id: Option<usize> },
    Disconnect { id: usize },
    Shutdown,
}

impl View for BroadcastEvent {
    type V = BroadcastView;

    open spec fn view(&self) -> BroadcastView {
        match self {
            BroadcastEvent::ChatMessage { message, author_id } => BroadcastView::ChatMessage {
                message: message@,
                author_id: *author_id,
            },
            BroadcastEvent::Disconnect { id } => BroadcastView::Disconnect { id: *id },
            BroadcastEvent::Shutdown => BroadcastView::Shutdown,
        }
    }
}

impl BroadcastEvent {
    /// A copy with the same content.
    pub fn duplicate(&self) -> (r: Self)
        ensures
            r@ == self@,
    {
        match self {
            BroadcastEvent::ChatMessage { message, author_id } => BroadcastEvent::ChatMessage {
                message: message.duplicate(),
                author_id: *author_id,
            },
            BroadcastEvent::Disconnect { id } => BroadcastEvent::Disconnect { id: *id },
            BroadcastEvent::Shutdown => BroadcastEvent::Shutdown,
        }
    }
}

/// What a session's writer does with the next event of its queue.
#[derive(Debug)]
pub enum WriterAction {
    /// Send this message to the client.
    Deliver(Message),
    /// Nothing to send for this event; wait for the next.
    Skip,
    /// Nothing is queued.
    Idle,
    /// The session is over: stop writing.
    Stop,
}

/// The writer's rule: no echo to the author, stop on its own disconnect or on
/// shutdown, ignore other sessions' disconnects.
pub open spec fn delivers(me: usize, e: BroadcastView) -> bool {
    match e {
        BroadcastView::ChatMessage { author_id, .. } => author_id != Some(me),
        _ => false,
    }
}

pub open spec fn stops(me: usize, e: BroadcastView) -> bool {
    match e {
        BroadcastView::Disconnect { id } => id == me,
        BroadcastView::Shutdown => true,
        _ => false,
    }
}

/// What the writer of session `me` does with event `e`.
pub fn writer_decision(me: usize, e: BroadcastEvent) -> (r: WriterAction)
    ensures
        match r {
            WriterAction::Deliver(m) => delivers(me, e@) && e@ == (BroadcastView::ChatMessage {
                message: m@,
                author_id: e@->ChatMessage_author_id,
            }),
            WriterAction::Stop => stops(me, e@),
            WriterAction::Skip => !delivers(me, e@) && !stops(me, e@),
            WriterAction::Idle => false,
        },
{
    match e {
        BroadcastEvent::ChatMessage { message, author_id } => {
            match author_id {
                Some(a) => {
                    if a == me {
                        WriterAction::Skip
                    } else {
                        WriterAction::Deliver(message)
                    }
                },
                None => WriterAction::Deliver(message),
            }
        },
        BroadcastEvent::Disconnect { id } => {
            if id == me {
                WriterAction::Stop
            } else {
                WriterAction::Skip
            }
        },
        BroadcastEvent::Shutdown => WriterAction::Stop,
    }
}

/// What taking the next event for session `id` does: a session that is gone
/// stops its writer; an empty queue leaves everything as it is; otherwise the
/// oldest event leaves the queue and the writer's rule decides on it.
pub open spec fn took_next(
    before: Seq<SessionView>,
    after: Seq<SessionView>,
    id: usize,
    r: WriterAction,
) -> bool {
    &&& !has_id(before, id) ==> r is Stop && after == before
    &&& forall|i: int|
        #![trigger before[i]]
        0 <= i < before.len() && before[i].id == id ==> {
            let q = before[i].outbox;
            if q.len() == 0 {
                r is Idle && after == before
            } else {
                after == before.update(i, before[i].with_outbox(q.drop_first())) && match r {
                    WriterAction::Deliver(m) => delivers(id, q[0]) && q[0]
                        == (BroadcastView::ChatMessage {
                        message: m@,
                        author_id: q[0]->ChatMessage_author_id,
                    }),
                    WriterAction::Stop => stops(id, q[0]),
                    WriterAction::Skip => !delivers(id, q[0]) && !stops(id, q[0]),
                    WriterAction::Idle => false,
                }
            }
        }
}

/// One active session as the registry keeps it.
pub struct SessionEntry {
    pub id: usize,
    pub username: String,
    pub display_name: String,
    pub name_color: String,
    pub message_color: String,
    pub outbox: ClientChannel,
}

pub ghost struct SessionView {
    pub id: usize,
    pub username: Seq<char>,
    pub display_name: Seq<char>,
    pub name_color: Seq<char>,
    pub message_color: Seq<char>,
    pub outbox: Seq<BroadcastView>,
}

impl View for SessionEntry {
    type V = SessionView;

    open spec fn view(&self) -> SessionView {
        SessionView {
            id: self.id,
            username: self.username@,
            display_name: self.display_name@,
            name_color: self.name_color@,
            message_color: self.message_color@,
            outbox: self.outbox@,
        }
    }
}

impl SessionView {
    pub open spec fn with_outbox(self, outbox: Seq<BroadcastView>) -> SessionView {
        SessionView { outbox, ..self }
    }
}

/// Sessions whose ids are pairwise distinct.
pub open spec fn distinct_ids(s: Seq<SessionView>) -> bool {
    forall|i: int, j: int| 0 <= i < s.len() && 0 <= j < s.len() && i != j ==> s[i].id != s[j].id
}

pub open spec fn has_id(s: Seq<SessionView>, id: usize) -> bool {
    exists|i: int| 0 <= i < s.len() && s[i].id == id
}

/// Every session's queue with `e` added at its end.
pub open spec fn all_received(s: Seq<SessionView>, e: BroadcastView) -> Seq<SessionView> {
    s.map_values(|v: SessionView| v.with_outbox(v.outbox.push(e)))
}

/// The shared set of active sessions.
pub struct ClientRegistry {
    sessions: Vec<SessionEntry>,
}

impl View for ClientRegistry {
    type V = Seq<SessionView>;

    closed spec fn view(&self) -> Seq<SessionView> {
        self.sessions@.map_values(|e: SessionEntry| e@)
    }
}

impl ClientRegistry {
    pub open spec fn wf(&self) -> bool {
        distinct_ids(self@)
    }

    pub fn new() -> (r: Self)
        ensures
            r@ == Seq::<SessionView>::empty(),
    {
        let r = ClientRegistry { sessions: Vec::new() };
        assert(r@ =~= Seq::<SessionView>::empty());
        r
    }

    pub fn len(&self) -> (r: usize)
        ensures
            r == self@.len(),
    {
        self.sessions.len()
    }

    /// The position of the session with this id.
    pub fn position(&self, id: usize) -> (r: Option<usize>)
        ensures
            match r {
                Some(i) => i < self@.len() && self@[i as int].id == id,
                None => !has_id(self@, id),
            },
    {
        let mut i: usize = 0;
        while i < self.sessions.len()
            invariant
                0 <= i <= self.sessions@.len(),
                self@.len() == self.sessions@.len(),
                forall|k: int| 0 <= k < i ==> self@[k].id != id,
            decreases self.sessions@.len() - i,
        {
            assert(self@[i as int].id == self.sessions@[i as int].id);
            if self.sessions[i].id == id {
                return Some(i);
            }
            i = i + 1;
        }
        None
    }

    pub fn contains(&self, id: usize) -> (r: bool)
        ensures
            r == has_id(self@, id),
    {
        self.position(id).is_some()
    }

    /// Adds a session whose id is not taken.
    pub fn insert(&mut self, entry: SessionEntry)
        requires
            old(self).wf(),
            !has_id(old(self)@, entry.id),
        ensures
            final(self).wf(),
            final(self)@ == old(self)@.push(entry@),
    {
        let ghost e = entry@;
        self.sessions.push(entry);
        assert(self@ =~= old(self)@.push(e));
    }

    /// Removes the session with this id, if any.
    pub fn remove(&mut self, id: usize) -> (r: Option<SessionEntry>)
        requires
            old(self).wf(),
        ensures
            final(self).wf(),
            match r {
                Some(e) => exists|i: int|
                    0 <= i < old(self)@.len() && old(self)@[i].id == id && e@ == old(self)@[i]
                        && final(self)@ == old(self)@.remove(i),
                None => !has_id(old(self)@, id) && final(self)@ == old(self)@,
            },
            !has_id(final(self)@, id),
    {
        match self.position(id) {
            Some(i) => {
                let e = self.sessions.remove(i);
                proof {
                    assert(self@ =~= old(self)@.remove(i as int));
                    assert(e@ == old(self)@[i as int]);
                    if has_id(self@, id) {
                        let k = choose|k: int| 0 <= k < self@.len() && self@[k].id == id;
                        if k < i {
                            assert(old(self)@[k].id == id);
                        } else {
                            assert(old(self)@[k + 1].id == id);
                        }
                    }
                }
                Some(e)
            },
            None => None,
        }
    }

    /// The message color, name color and display name of the session at
    /// position `i`.
    pub fn presentation(&self, i: usize) -> (r: (String, String, String))
        requires
            i < self@.len(),
        ensures
            r.0@ == self@[i as int].message_color,
            r.1@ == self@[i as int].name_color,
            r.2@ == self@[i as int].display_name,
    {
        let e = &self.sessions[i];
        (e.message_color.clone(), e.name_color.clone(), e.display_name.clone())
    }

    /// Sets a session's presentation; false where no session has this id.
    pub fn update_config(
        &mut self,
        id: usize,
        display_name: String,
        name_color: String,
        message_color: String,
    ) -> (r: bool)
        requires
            old(self).wf(),
        ensures
            final(self).wf(),
            r == has_id(old(self)@, id),
            final(self)@.len() == old(self)@.len(),
            forall|i: int|
                0 <= i < old(self)@.len() ==> #[trigger] final(self)@[i] == if old(self)@[i].id
                    == id {
                    SessionView {
                        display_name: display_name@,
                        name_color: name_color@,
                        message_color: message_color@,
                        ..old(self)@[i]
                    }
                } else {
                    old(self)@[i]
                },
    {
        match self.position(id) {
            Some(i) => {
                self.sessions[i].display_name = display_name;
                self.sessions[i].name_color = name_color;
                self.sessions[i].message_color = message_color;
                proof {
                    assert forall|k: int| 0 <= k < old(self)@.len() && k != i implies old(self)@[k].id
                        != id by {}
                    assert forall|k: int| 0 <= k < old(self)@.len() implies self@[k].id == old(
                        self,
                    )@[k].id by {
                        assert(self@[k] == self.sessions@[k]@);
                        assert(old(self)@[k] == old(self).sessions@[k]@);
                    }
                }
                true
            },
            None => false,
        }
    }

    /// Takes the next event queued for session `id` and decides what its
    /// writer does with it. A session that is gone stops its writer.
    pub fn next_delivery(&mut self, id: usize) -> (r: WriterAction)
        requires
            old(self).wf(),
        ensures
            final(self).wf(),
            took_next(old(self)@, final(self)@, id, r),
    {
        match self.position(id) {
            None => WriterAction::Stop,
            Some(i) => {
                proof {
                    assert forall|k: int| 0 <= k < old(self)@.len() && old(self)@[k].id == id implies k
                        == i by {}
                }
                match self.sessions[i].outbox.receive() {
                    None => {
                        assert(self@ =~= old(self)@);
                        WriterAction::Idle
                    },
                    Some(e) => {
                        proof {
                            let q = old(self)@[i as int].outbox;
                            assert(self@ =~= old(self)@.update(
                                i as int,
                                old(self)@[i as int].with_outbox(q.drop_first()),
                            ));
                        }
                        writer_decision(id, e)
                    },
                }
            },
        }
    }
}

/// Queues `event` for every session in the registry.
pub fn send_to_clients(registry: &mut ClientRegistry, event: &BroadcastEvent)
    requires
        old(registry).wf(),
    ensures
        final(registry).wf(),
        final(registry)@ == all_received(old(registry)@, event@),
{
    let n = registry.sessions.len();
    let mut i: usize = 0;
    while i < n
        invariant
            0 <= i <= n,
            n == registry.sessions@.len(),
            registry@.len() == old(registry)@.len(),
            forall|k: int|
                0 <= k < i ==> #[trigger] registry@[k] == old(registry)@[k].with_outbox(
                    old(registry)@[k].outbox.push(event@),
                ),
            forall|k: int| i <= k < n ==> #[trigger] registry@[k] == old(registry)@[k],
        decreases n - i,
    {
        let ghost prev = registry.sessions@;
        let ghost prevv = registry@;
        registry.sessions[i].outbox.send(event.duplicate());
        proof {
            assert forall|k: int| 0 <= k < n && k != i implies registry.sessions@[k] == prev[k] by {}
            assert forall|k: int| 0 <= k < n implies #[trigger] registry@[k] == registry.sessions@[k]@ by {}
            assert forall|k: int| 0 <= k < n && k != i implies #[trigger] registry@[k] == prevv[k] by {
                assert(prevv[k] == prev[k]@);
            }
            assert(prevv[i as int] == prev[i as int]@);
            assert(registry@[i as int] == prevv[i as int].with_outbox(prevv[i as int].outbox.push(event@)));
        }
        i = i + 1;
    }
    assert(registry@ =~= all_received(old(registry)@, event@));
}

/// A broadcast reaches every session's queue, in the order in which
/// broadcasts were issued: two in a row leave both at the end of each queue,
/// the first before the second.
pub proof fn lemma_broadcast_order(s: Seq<SessionView>, e1: BroadcastView, e2: BroadcastView)
    ensures
        all_received(all_received(s, e1), e2).len() == s.len(),
        forall|i: int|
            0 <= i < s.len() ==> #[trigger] all_received(all_received(s, e1), e2)[i] == s[i].with_outbox(
                s[i].outbox + seq![e1, e2],
            ),
{
    assert forall|i: int| 0 <= i < s.len() implies #[trigger] all_received(
        all_received(s, e1),
        e2,
    )[i] == s[i].with_outbox(s[i].outbox + seq![e1, e2]) by {
        assert(s[i].outbox.push(e1).push(e2) =~= s[i].outbox + seq![e1, e2]);
    }
}

/// Every session's queue with the events `es` added at its end, one
/// broadcast after another.
pub open spec fn all_received_each(s: Seq<SessionView>, es: Seq<BroadcastView>) -> Seq<SessionView>
    decreases es.len(),
{
    if es.len() == 0 {
        s
    } else {
        all_received(all_received_each(s, es.drop_last()), es.last())
    }
}

/// Any number of broadcasts issued one after another reach every session's
/// queue in the order in which they were issued.
pub proof fn lemma_broadcasts_in_order(s: Seq<SessionView>, es: Seq<BroadcastView>)
    ensures
        all_received_each(s, es).len() == s.len(),
        forall|i: int|
            0 <= i < s.len() ==> #[trigger] all_received_each(s, es)[i] == s[i].with_outbox(
                s[i].outbox + es,
            ),
    decreases es.len(),
{
    if es.len() == 0 {
        assert forall|i: int| 0 <= i < s.len() implies #[trigger] all_received_each(s, es)[i]
            == s[i].with_outbox(s[i].outbox + es) by {
            assert(s[i].outbox + es =~= s[i].outbox);
        }
    } else {
        lemma_broadcasts_in_order(s, es.drop_last());
        let t = all_received_each(s, es.drop_last());
        assert forall|i: int| 0 <= i < s.len() implies #[trigger] all_received_each(s, es)[i]
            == s[i].with_outbox(s[i].outbox + es) by {
            assert(t[i] == s[i].with_outbox(s[i].outbox + es.drop_last()));
            assert((s[i].outbox + es.drop_last()).push(es.last()) =~= s[i].outbox + es);
        }
    }
}

/// The event by which session `author` broadcasts a chat line.
pub open spec fn chat_by(message: MessageView, author: usize) -> BroadcastView {
    BroadcastView::ChatMessage { message, author_id: Some(author) }
}

/// A chat line broadcast by session `author` is queued for every session and
/// delivered by every writer but the author's own.
pub proof fn lemma_no_echo(s: Seq<SessionView>, message: MessageView, author: usize)
    ensures
        forall|i: int|
            #![trigger s[i]]
            0 <= i < s.len() ==> {
                &&& all_received(s, chat_by(message, author))[i].outbox.last() == chat_by(
                    message,
                    author,
                )
                &&& delivers(s[i].id, chat_by(message, author)) <==> s[i].id != author
            },
{
}

} // verus!
