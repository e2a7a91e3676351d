//! A session's own queue of outbound events: broadcasters push into it and
//! the session's writer takes from it, oldest first.
use crate::registry::{BroadcastEvent, BroadcastView};
use std::collections::VecDeque;
use vstd::prelude::*;

verus! {

pub struct ClientChannel {
    queue: VecDeque<BroadcastEvent>,
}

impl View for ClientChannel {
    type V = Seq<BroadcastView>;

    closed spec fn view(&self) -> Seq<BroadcastView> {
        self.queue@.map_values(|e: BroadcastEvent| e@)
    }
}

impl ClientChannel {
    pub fn new() -> (r: Self)
        ensures
            r@ == Seq::<BroadcastView>::empty(),
    {
        let r = ClientChannel { queue: VecDeque::new() };
        assert(r@ =~= Seq::<BroadcastView>::empty());
        r
    }

    /// Queues an event at the end.
    pub fn send(&mut self, event: BroadcastEvent)
        ensures
            final(self)@ == old(self)@.push(event@),
    {
        self.queue.push_back(event);
        assert(self@ =~= old(self)@.push(event@));
    }

    /// Takes the oldest queued event, if any.
    pub fn receive(&mut self) -> (r: Option<BroadcastEvent>)
        ensures
            old(self)@.len() == 0 ==> r is None && final(self)@ == old(self)@,
            old(self)@.len() > 0 ==> (r matches Some(e) && e@ == old(self)@[0] && final(self)@
                == old(self)@.drop_first()),
    {
        let r = self.queue.pop_front();
        assert(old(self)@.len() == 0 ==> self@ =~= old(self)@);
        assert(old(self)@.len() > 0 ==> self@ =~= old(self)@.drop_first());
        r
    }

    pub fn len(&self) -> (r: usize)
        ensures
            r == self@.len(),
    {
        self.queue.len()
    }
}

} // verus!
