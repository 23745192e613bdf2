//! Bounded relay: the fixed-capacity FIFO handoff between the poller and
//! the persistence worker. Accepted messages are kept in submission order
//! and handed out strictly in that order; when the relay is full a
//! submission is refused rather than dropping or overwriting a message, and
//! the producer must wait until the consumer frees a slot.

use vstd::prelude::*;

verus! {

/// Capacity of the relay between the poller and the persistence worker.
pub const DEFAULT_RELAY_CAPACITY: usize = 10;

pub struct BoundedRelay {
    items: Vec<String>,
    cap: usize,
}

impl BoundedRelay {
    /// The pending messages, oldest first.
    pub closed spec fn contents(&self) -> Seq<Seq<char>> {
        self.items@.map_values(|s: String| s@)
    }

    /// The fixed number of messages the relay may hold at once.
    pub closed spec fn capacity(&self) -> nat {
        self.cap as nat
    }

    pub open spec fn well_formed(&self) -> bool {
        self.contents().len() <= self.capacity() && self.capacity() >= 1
    }

    pub fn new(capacity: usize) -> (r: BoundedRelay)
        requires
            capacity >= 1,
        ensures
            r.contents() == Seq::<Seq<char>>::empty(),
            r.capacity() == capacity as nat,
            r.well_formed(),
    {
        let r = BoundedRelay { items: Vec::new(), cap: capacity };
        proof {
            assert(r.contents() =~= Seq::<Seq<char>>::empty());
        }
        r
    }

    pub fn with_default_capacity() -> (r: BoundedRelay)
        ensures
            r.contents() == Seq::<Seq<char>>::empty(),
            r.capacity() == DEFAULT_RELAY_CAPACITY as nat,
            r.well_formed(),
    {
        BoundedRelay::new(DEFAULT_RELAY_CAPACITY)
    }

    pub fn len(&self) -> (n: usize)
        ensures
            n as nat == self.contents().len(),
    {
        self.items.len()
    }

    pub fn is_full(&self) -> (b: bool)
        ensures
            b == (self.contents().len() >= self.capacity()),
    {
        self.items.len() >= self.cap
    }

    /// Offers a message to the relay. A message is accepted exactly when a
    /// slot is free, and then joins the end of the pending queue; a full
    /// relay leaves the queue untouched and refuses, which makes the
    /// producer block and retry rather than lose the message.
    pub fn try_submit(&mut self, msg: String) -> (accepted: bool)
        requires
            old(self).well_formed(),
        ensures
            final(self).well_formed(),
            final(self).capacity() == old(self).capacity(),
            accepted == (old(self).contents().len() < old(self).capacity()),
            accepted ==> final(self).contents() == old(self).contents().push(msg@),
            !accepted ==> final(self).contents() == old(self).contents(),
    {
        if self.items.len() < self.cap {
            self.items.push(msg);
            proof {
                assert(self.contents() =~= old(self).contents().push(msg@));
            }
            true
        } else {
            false
        }
    }

    /// Takes the oldest pending message, if any: consumption yields
    /// messages strictly in submission order.
    pub fn recv(&mut self) -> (m: Option<String>)
        requires
            old(self).well_formed(),
        ensures
            final(self).well_formed(),
            final(self).capacity() == old(self).capacity(),
            old(self).contents().len() == 0 ==> m is None && final(self).contents() == old(
                self,
            ).contents(),
            old(self).contents().len() > 0 ==> (m matches Some(s) && s@ == old(self).contents()[0]
                && final(self).contents() == old(self).contents().drop_first()),
    {
        if self.items.len() == 0 {
            None
        } else {
            let s = self.items.remove(0);
            proof {
                assert(self.contents() =~= old(self).contents().drop_first());
            }
            Some(s)
        }
    }
}

} // verus!
