//! The bounded queue that hands chunks between a real-time audio callback and
//! a network task, with an explicit policy for what is dropped when full.
use std::collections::VecDeque;
use vstd::prelude::*;

verus! {

/// Which chunk is given up when a chunk arrives at a full queue.
#[derive(Debug, Clone, Copy, PartialEq, Eq, Structural)]
pub enum DropPolicy {
    /// The arriving chunk is dropped; what is queued stays.
    DropNewest,
    /// The oldest queued chunk is dropped to make room.
    DropOldest,
}

/// What became of an offered chunk.
#[derive(Debug, Clone, Copy, PartialEq, Eq, Structural)]
pub enum Offer {
    /// Queued, nothing dropped.
    Accepted,
    /// The queue was full and the offered chunk was dropped.
    DroppedNewest,
    /// The queue was full; the oldest chunk was dropped and the offered one
    /// queued.
    DroppedOldest,
}

/// What offering `chunk` to queue `q` does: `q2` is the queue afterwards and
/// `r` the outcome.
pub open spec fn offer_post(q: HandoffQueue, q2: HandoffQueue, chunk: Seq<u32>, r: Offer) -> bool {
    &&& q2.wf()
    &&& q2.spec_capacity() == q.spec_capacity()
    &&& q2.spec_policy() == q.spec_policy()
    &&& q.contents().len() < q.spec_capacity() ==> {
        &&& r == Offer::Accepted
        &&& q2.contents() == q.contents().push(chunk)
    }
    &&& q.contents().len() >= q.spec_capacity() && (q.spec_policy() == DropPolicy::DropNewest
        || q.spec_capacity() == 0) ==> {
        &&& r == Offer::DroppedNewest
        &&& q2.contents() == q.contents()
    }
    &&& q.contents().len() >= q.spec_capacity() && q.spec_policy() == DropPolicy::DropOldest
        && q.spec_capacity() > 0 ==> {
        &&& r == Offer::DroppedOldest
        &&& q2.contents() == q.contents().drop_first().push(chunk)
    }
}

/// A bounded FIFO of sample chunks.
pub struct HandoffQueue {
    chunks: VecDeque<Vec<u32>>,
    capacity: usize,
    policy: DropPolicy,
}

impl HandoffQueue {
    /// The queued chunks, oldest first.
    pub closed spec fn contents(&self) -> Seq<Seq<u32>> {
        self.chunks@.map_values(|c: Vec<u32>| c@)
    }

    /// The most chunks the queue holds.
    pub closed spec fn spec_capacity(&self) -> nat {
        self.capacity as nat
    }

    /// The policy applied when full.
    pub closed spec fn spec_policy(&self) -> DropPolicy {
        self.policy
    }

    /// The queue never holds more than its capacity.
    pub open spec fn wf(&self) -> bool {
        self.contents().len() <= self.spec_capacity()
    }

    /// An empty queue of the given capacity and policy.
    pub fn new(capacity: usize, policy: DropPolicy) -> (r: HandoffQueue)
        ensures
            r.wf(),
            r.contents() == Seq::<Seq<u32>>::empty(),
            r.spec_capacity() == capacity,
            r.spec_policy() == policy,
    {
        let r = HandoffQueue { chunks: VecDeque::new(), capacity, policy };
        assert(r.contents() =~= Seq::<Seq<u32>>::empty());
        r
    }

    /// The number of queued chunks.
    pub fn len(&self) -> (r: usize)
        ensures
            r == self.contents().len(),
    {
        self.chunks.len()
    }

    /// Whether no chunk is queued.
    pub fn is_empty(&self) -> (r: bool)
        ensures
            r == (self.contents().len() == 0),
    {
        self.chunks.len() == 0
    }

    /// Whether an offered chunk would meet the drop policy.
    pub fn is_full(&self) -> (r: bool)
        ensures
            r == (self.contents().len() >= self.spec_capacity()),
    {
        self.chunks.len() >= self.capacity
    }

    /// The most chunks the queue holds.
    pub fn capacity(&self) -> (r: usize)
        ensures
            r == self.spec_capacity(),
    {
        self.capacity
    }

    /// The policy applied when full.
    pub fn policy(&self) -> (r: DropPolicy)
        ensures
            r == self.spec_policy(),
    {
        self.policy
    }

    /// Offers a chunk without ever blocking: it is queued when there is room;
    /// otherwise the policy decides which chunk is dropped.
    pub fn offer(&mut self, chunk: Vec<u32>) -> (r: Offer)
        requires
            old(self).wf(),
        ensures
            offer_post(*old(self), *final(self), chunk@, r),
    {
        let ghost c = chunk@;
        if self.chunks.len() < self.capacity {
            self.chunks.push_back(chunk);
            assert(self.contents() =~= old(self).contents().push(c));
            Offer::Accepted
        } else if self.capacity == 0 || self.policy == DropPolicy::DropNewest {
            Offer::DroppedNewest
        } else {
            let _ = self.chunks.pop_front();
            self.chunks.push_back(chunk);
            assert(self.contents() =~= old(self).contents().drop_first().push(c));
            Offer::DroppedOldest
        }
    }

    /// Takes the oldest chunk, if any; never blocks.
    pub fn take(&mut self) -> (r: Option<Vec<u32>>)
        requires
            old(self).wf(),
        ensures
            final(self).wf(),
            final(self).spec_capacity() == old(self).spec_capacity(),
            final(self).spec_policy() == old(self).spec_policy(),
            old(self).contents().len() == 0 <==> r is None,
            r is None ==> final(self).contents() == old(self).contents(),
            r matches Some(c) ==> c@ == old(self).contents()[0] && final(self).contents()
                == old(self).contents().drop_first(),
    {
        let r = self.chunks.pop_front();
        assert(self.contents() =~= old(self).contents().subrange(
            if old(self).contents().len() > 0 { 1 } else { 0 },
            old(self).contents().len() as int,
        ));
        r
    }
}

} // verus!
