//! The session registry: one ordered outbound queue per live connection.

use vstd::prelude::*;
use crate::protocol::{message_views, MessageView, ServerMessage};

verus! {

/// A registry's content: each connection identity with its pending messages,
/// oldest first.
pub type Outboxes = Seq<(Seq<char>, Seq<MessageView>)>;

pub open spec fn registered(s: Outboxes, id: Seq<char>) -> bool {
    exists|i: int| 0 <= i < s.len() && #[trigger] s[i].0 == id
}

/// `m` queued behind whatever `id` already has pending; a connection that is
/// not registered receives nothing.
pub open spec fn delivered(s: Outboxes, id: Seq<char>, m: MessageView) -> Outboxes {
    s.map_values(
        |e: (Seq<char>, Seq<MessageView>)|
            if e.0 == id {
                (e.0, e.1.push(m))
            } else {
                e
            },
    )
}

pub open spec fn unique_ids(s: Outboxes) -> bool {
    forall|i: int, j: int| 0 <= i < j < s.len() ==> #[trigger] s[i].0 != #[trigger] s[j].0
}

/// The registry after each `(recipient, message)` of `sends` is sent, in order.
pub open spec fn deliver_all(s: Outboxes, sends: Seq<(Seq<char>, MessageView)>) -> Outboxes
    decreases sends.len(),
{
    if sends.len() == 0 {
        s
    } else {
        delivered(deliver_all(s, sends.drop_last()), sends.last().0, sends.last().1)
    }
}

/// The messages of `sends` addressed to `id`, in sending order.
pub open spec fn addressed_to(sends: Seq<(Seq<char>, MessageView)>, id: Seq<char>) -> Seq<MessageView>
    decreases sends.len(),
{
    if sends.len() == 0 {
        Seq::empty()
    } else if sends.last().0 == id {
        addressed_to(sends.drop_last(), id).push(sends.last().1)
    } else {
        addressed_to(sends.drop_last(), id)
    }
}

/// Per-connection order: whatever is sent, to whichever connections, each
/// connection's queue ends up as it was, followed by exactly the messages
/// addressed to it, in the order in which they were sent.
pub proof fn lemma_queue_order(s: Outboxes, sends: Seq<(Seq<char>, MessageView)>)
    ensures
        deliver_all(s, sends).len() == s.len(),
        forall|k: int|
            0 <= k < s.len() ==> #[trigger] deliver_all(s, sends)[k] == (
                s[k].0,
                s[k].1 + addressed_to(sends, s[k].0),
            ),
    decreases sends.len(),
{
    if sends.len() > 0 {
        let rest = sends.drop_last();
        lemma_queue_order(s, rest);
        assert forall|k: int| 0 <= k < s.len() implies #[trigger] deliver_all(s, sends)[k] == (
            s[k].0,
            s[k].1 + addressed_to(sends, s[k].0),
        ) by {
            let d = deliver_all(s, rest);
            assert(d[k] == (s[k].0, s[k].1 + addressed_to(rest, s[k].0)));
            if sends.last().0 == s[k].0 {
                assert((s[k].1 + addressed_to(rest, s[k].0)).push(sends.last().1) =~= s[k].1
                    + addressed_to(rest, s[k].0).push(sends.last().1));
            }
        }
    }
}

struct Session {
    id: String,
    outbox: Vec<ServerMessage>,
}

/// Maps each connection identity to its queue of outbound messages.
pub struct SessionRegistry {
    sessions: Vec<Session>,
}

impl View for SessionRegistry {
    type V = Outboxes;

    closed spec fn view(&self) -> Outboxes {
        self.sessions@.map_values(
            |s: Session| (s.id@, message_views(s.outbox@)),
        )
    }
}

impl SessionRegistry {
    pub closed spec fn wf(&self) -> bool {
        unique_ids(self@)
    }

    pub fn new() -> (r: SessionRegistry)
        ensures
            r.wf(),
            r@ == Seq::<(Seq<char>, Seq<MessageView>)>::empty(),
    {
        let r = SessionRegistry { sessions: Vec::new() };
        assert(r@ =~= Seq::<(Seq<char>, Seq<MessageView>)>::empty());
        r
    }

    /// The position of `id` in the registry.
    fn find(&self, id: &String) -> (r: Option<usize>)
        ensures
            match r {
                Some(i) => i < self@.len() && self@[i as int].0 == id@,
                None => !registered(self@, id@),
            },
    {
        let mut i: usize = 0;
        while i < self.sessions.len()
            invariant
                i <= self.sessions@.len(),
                forall|j: int| 0 <= j < i ==> self@[j].0 != id@,
            decreases self.sessions@.len() - i,
        {
            if self.sessions[i].id == *id {
                return Some(i);
            }
            i = i + 1;
        }
        None
    }

    pub fn is_registered(&self, id: &String) -> (r: bool)
        ensures
            r == registered(self@, id@),
    {
        self.find(id).is_some()
    }

    /// Opens an empty queue for a new connection. An identity that is
    /// already registered keeps its queue, and `false` is returned.
    pub fn register(&mut self, id: String) -> (r: bool)
        requires
            old(self).wf(),
        ensures
            final(self).wf(),
            r == !registered(old(self)@, id@),
            r ==> final(self)@ == old(self)@.push((id@, Seq::<MessageView>::empty())),
            !r ==> final(self)@ == old(self)@,
    {
        if self.find(&id).is_some() {
            return false;
        }
        let ghost id_view = id@;
        let outbox: Vec<ServerMessage> = Vec::new();
        assert(message_views(outbox@) =~= Seq::<MessageView>::empty());
        self.sessions.push(Session { id, outbox });
        assert(self@ =~= old(self)@.push((id_view, Seq::<MessageView>::empty())));
        true
    }

    /// Drops the queue of a closed connection, with what it still held.
    pub fn unregister(&mut self, id: &String)
        requires
            old(self).wf(),
        ensures
            final(self).wf(),
            !registered(final(self)@, id@),
            !registered(old(self)@, id@) ==> final(self)@ == old(self)@,
            forall|i: int|
                0 <= i < old(self)@.len() && (#[trigger] old(self)@[i]).0 == id@ ==> final(self)@ == old(
                    self,
                )@.remove(i),
    {
        match self.find(id) {
            Some(i) => {
                let ghost before = self@;
                self.sessions.remove(i);
                assert(self@ =~= before.remove(i as int));
                assert forall|a: int, b: int| 0 <= a < b < self@.len() implies #[trigger] self@[a].0
                    != #[trigger] self@[b].0 by {
                    if a >= i {
                        assert(before[a + 1].0 != before[b + 1].0);
                    } else if b >= i {
                        assert(before[a].0 != before[b + 1].0);
                    } else {
                        assert(before[a].0 != before[b].0);
                    }
                }
                assert forall|j: int| 0 <= j < self@.len() implies #[trigger] self@[j].0 != id@ by {
                    if j >= i {
                        assert(before[i as int].0 != before[j + 1].0);
                    } else {
                        assert(before[j].0 != before[i as int].0);
                    }
                }
            },
            None => {},
        }
    }

    /// Queues `msg` for `id`, behind what it already has pending. Sending to
    /// an identity that is not registered does nothing.
    pub fn send_to(&mut self, id: &String, msg: ServerMessage)
        requires
            old(self).wf(),
        ensures
            final(self).wf(),
            final(self)@ == delivered(old(self)@, id@, msg@),
    {
        let ghost m = msg@;
        match self.find(id) {
            Some(i) => {
                let ghost before = self@;
                self.sessions[i].outbox.push(msg);
                assert(message_views(self.sessions@[i as int].outbox@)
                    =~= before[i as int].1.push(m));
                assert(self@ =~= delivered(before, id@, m));
            },
            None => {
                assert(self@ =~= delivered(self@, id@, m));
            },
        }
    }

    /// Hands over the messages pending for `id`, oldest first, and empties its
    /// queue.
    pub fn take_outbox(&mut self, id: &String) -> (r: Vec<ServerMessage>)
        requires
            old(self).wf(),
        ensures
            final(self).wf(),
            !registered(old(self)@, id@) ==> r@.len() == 0 && final(self)@ == old(self)@,
            forall|i: int|
                0 <= i < old(self)@.len() && (#[trigger] old(self)@[i]).0 == id@ ==> {
                    &&& message_views(r@) == old(self)@[i].1
                    &&& final(self)@ == old(self)@.update(i, (id@, Seq::<MessageView>::empty()))
                },
    {
        let mut out: Vec<ServerMessage> = Vec::new();
        match self.find(id) {
            Some(i) => {
                let ghost before = self@;
                std::mem::swap(&mut self.sessions[i].outbox, &mut out);
                assert(message_views(self.sessions@[i as int].outbox@)
                    =~= Seq::<MessageView>::empty());
                assert(self@ =~= before.update(i as int, (id@, Seq::<MessageView>::empty())));
            },
            None => {},
        }
        out
    }
}

} // verus!
