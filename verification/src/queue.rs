use vstd::prelude::*;
use crate::twitch::IRCMessage;

verus! {

/// How many messages may be in flight toward the wire at once.
pub const QUEUE_CAPACITY: usize = 10;

/// A bounded, ordered conduit between command execution and wire writes,
/// filled by one producer and drained by one consumer. Messages leave in
/// the order they entered. A full queue refuses a new message — the
/// producer's backpressure — and a closed queue tells the drained consumer
/// that no more will come.
pub struct MessageQueue {
    items: Vec<IRCMessage>,
    capacity: usize,
    closed: bool,
}

impl MessageQueue {
    /// The queued wire texts, oldest first.
    pub closed spec fn contents(&self) -> Seq<Seq<char>> {
        self.items@.map_values(|m: IRCMessage| m.0@)
    }

    /// The bound the queue was made with.
    pub closed spec fn cap(&self) -> nat {
        self.capacity as nat
    }

    /// Whether the producer announced the end.
    pub closed spec fn closed_down(&self) -> bool {
        self.closed
    }

    pub fn new(capacity: usize) -> (r: MessageQueue)
        ensures
            r.contents() == Seq::<Seq<char>>::empty(),
            r.cap() == capacity as nat,
            !r.closed_down(),
    {
        let r = MessageQueue { items: Vec::new(), capacity: capacity, closed: false };
        proof {
            assert(r.contents() =~= Seq::<Seq<char>>::empty());
        }
        r
    }

    pub fn len(&self) -> (r: usize)
        ensures
            r as nat == self.contents().len(),
    {
        self.items.len()
    }

    pub fn is_closed(&self) -> (r: bool)
        ensures
            r == self.closed_down(),
    {
        self.closed
    }

    /// Accepts the message when there is room; a full queue hands it back,
    /// which is the producer's backpressure.
    pub fn push(&mut self, m: IRCMessage) -> (r: Option<IRCMessage>)
        ensures
            old(self).contents().len() < old(self).cap() ==> r is None && final(self).contents()
                == old(self).contents().push(m.0@),
            old(self).contents().len() >= old(self).cap() ==> r == Some(m) && final(self).contents()
                == old(self).contents(),
            final(self).cap() == old(self).cap(),
            final(self).closed_down() == old(self).closed_down(),
    {
        if self.items.len() < self.capacity {
            self.items.push(m);
            proof {
                assert(self.contents() =~= old(self).contents().push(m.0@));
            }
            None
        } else {
            Some(m)
        }
    }

    /// Hands out the oldest message, when there is one.
    pub fn pop(&mut self) -> (r: Option<IRCMessage>)
        ensures
            old(self).contents().len() > 0 ==> (r matches Some(m) && m.0@ == old(
                self,
            ).contents()[0] && final(self).contents() == old(self).contents().skip(1)),
            old(self).contents().len() == 0 ==> r is None && final(self).contents() == old(
                self,
            ).contents(),
            final(self).cap() == old(self).cap(),
            final(self).closed_down() == old(self).closed_down(),
    {
        if self.items.len() > 0 {
            let m = self.items.remove(0);
            proof {
                assert(self.contents() =~= old(self).contents().skip(1));
            }
            Some(m)
        } else {
            None
        }
    }

    /// Announces that no more messages will come.
    pub fn close(&mut self)
        ensures
            final(self).closed_down(),
            final(self).contents() == old(self).contents(),
            final(self).cap() == old(self).cap(),
    {
        self.closed = true;
    }
}

} // verus!
