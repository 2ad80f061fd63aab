//! The dispatch channel: a bounded, closable queue of work items between the
//! discoverer and the workers.
//!
//! The channel never blocks. Where a blocking channel would stall its caller,
//! `send` hands the item back as `Full` and `recv` answers `Empty`; the caller
//! waits and asks again. Besides what it holds, a channel remembers (for the
//! proofs only) every item it has accepted and every item it has handed out.

use std::collections::VecDeque;
use vstd::prelude::*;
use crate::discover::WorkItem;
use crate::discover::WorkItemView;

verus! {

/// The capacity of the channel of a run: the discoverer is never more than
/// one item ahead of the workers.
pub const CHANNEL_CAPACITY: usize = 1;

/// Why `send` did not take an item. The item comes back with the reason.
#[derive(Clone, Debug, PartialEq, Eq)]
pub enum SendError {
    /// The channel holds as many items as it may: the sender has to wait.
    Full(WorkItem),
    /// The channel was closed: it takes no more items.
    Closed(WorkItem),
}

/// What `recv` found.
#[derive(Clone, Debug, PartialEq, Eq)]
pub enum Received {
    /// The oldest item of the channel, which has left it.
    Item(WorkItem),
    /// Nothing yet: the channel is open and holds no item, so the receiver has to wait.
    Empty,
    /// The channel is closed and drained: no item will come any more.
    Closed,
}

/// What a `DispatchChannel` is to the contracts.
pub struct ChannelView {
    /// The number of items that the channel may hold.
    pub capacity: nat,
    /// The items that wait in the channel, oldest first.
    pub pending: Seq<WorkItemView>,
    /// Whether the sender has closed the channel.
    pub closed: bool,
    /// Every item that the channel has accepted, in the order of acceptance.
    pub sent: Seq<WorkItemView>,
    /// Every item that the channel has handed out, in the order of delivery.
    pub delivered: Seq<WorkItemView>,
}

impl ChannelView {
    /// The channel has room for at least one item and never holds more than
    /// its capacity, and the accepted items are exactly those handed out
    /// followed by those that still wait: none is lost, none comes twice.
    pub open spec fn wf(self) -> bool {
        &&& 1 <= self.capacity
        &&& self.pending.len() <= self.capacity
        &&& self.sent == self.delivered + self.pending
    }

    /// The channel is closed and holds nothing.
    pub open spec fn drained(self) -> bool {
        self.closed && self.pending.len() == 0
    }

    /// Backpressure: the items that were accepted and not yet handed out are
    /// those that wait in the channel, so there are never more of them than
    /// the capacity, however many items pass through.
    pub proof fn lemma_undelivered_bounded(self)
        requires
            self.wf(),
        ensures
            self.sent.len() - self.delivered.len() == self.pending.len(),
            self.sent.len() - self.delivered.len() <= self.capacity,
    {
    }

    /// Completion: once the channel is closed and drained, every item that it
    /// accepted has been handed out, each once and in the order of acceptance.
    pub proof fn lemma_drained_means_delivered(self)
        requires
            self.wf(),
            self.drained(),
        ensures
            self.delivered == self.sent,
    {
        assert(self.delivered + self.pending =~= self.delivered);
    }
}

/// A bounded queue of work items that its sender can close. Every value of
/// this type is well formed in the sense of `ChannelView::wf`.
pub struct DispatchChannel {
    capacity: usize,
    buffer: VecDeque<WorkItem>,
    closed: bool,
    sent: Ghost<Seq<WorkItemView>>,
    delivered: Ghost<Seq<WorkItemView>>,
}

impl View for DispatchChannel {
    type V = ChannelView;

    closed spec fn view(&self) -> ChannelView {
        ChannelView {
            capacity: self.capacity as nat,
            pending: self.buffer@.map_values(|item: WorkItem| item@),
            closed: self.closed,
            sent: self.sent@,
            delivered: self.delivered@,
        }
    }
}

impl DispatchChannel {
    #[verifier::type_invariant]
    pub(crate) open spec fn inv(&self) -> bool {
        self@.wf()
    }

    /// An open, empty channel that holds one item at a time.
    pub fn new() -> (r: DispatchChannel)
        ensures
            r@ == (ChannelView {
                capacity: CHANNEL_CAPACITY as nat,
                pending: Seq::empty(),
                closed: false,
                sent: Seq::empty(),
                delivered: Seq::empty(),
            }),
            r@.wf(),
    {
        let r = DispatchChannel {
            capacity: CHANNEL_CAPACITY,
            buffer: VecDeque::new(),
            closed: false,
            sent: Ghost(Seq::empty()),
            delivered: Ghost(Seq::empty()),
        };
        proof {
            assert(r@.pending =~= Seq::empty());
            assert(r@.sent =~= r@.delivered + r@.pending);
        }
        r
    }

    /// An open, empty channel that holds up to `capacity` items; `None` when
    /// `capacity` is 0, for such a channel could never take an item.
    pub fn with_capacity(capacity: usize) -> (r: Option<DispatchChannel>)
        ensures
            match r {
                Some(channel) => capacity >= 1 && channel@.wf() && channel@ == (ChannelView {
                    capacity: capacity as nat,
                    pending: Seq::empty(),
                    closed: false,
                    sent: Seq::empty(),
                    delivered: Seq::empty(),
                }),
                None => capacity == 0,
            },
    {
        if capacity == 0 {
            return None;
        }
        let r = DispatchChannel {
            capacity,
            buffer: VecDeque::new(),
            closed: false,
            sent: Ghost(Seq::empty()),
            delivered: Ghost(Seq::empty()),
        };
        proof {
            assert(r@.pending =~= Seq::empty());
            assert(r@.sent =~= r@.delivered + r@.pending);
        }
        Some(r)
    }

    /// The number of items that the channel may hold; it is at least 1.
    pub fn capacity(&self) -> (r: usize)
        ensures
            r == self@.capacity,
            r >= 1,
    {
        proof {
            use_type_invariant(self);
        }
        self.capacity
    }

    /// The number of items that wait in the channel; it never exceeds the capacity.
    pub fn len(&self) -> (r: usize)
        ensures
            r == self@.pending.len(),
            r <= self@.capacity,
            self@.wf(),
    {
        proof {
            use_type_invariant(self);
        }
        self.buffer.len()
    }

    /// Whether the channel holds nothing.
    pub fn is_empty(&self) -> (r: bool)
        ensures
            r == (self@.pending.len() == 0),
    {
        self.buffer.len() == 0
    }

    /// Whether the channel holds as many items as it may.
    pub fn is_full(&self) -> (r: bool)
        ensures
            r == (self@.pending.len() == self@.capacity),
    {
        proof {
            use_type_invariant(self);
        }
        self.buffer.len() >= self.capacity
    }

    /// Whether the sender has closed the channel.
    pub fn is_closed(&self) -> (r: bool)
        ensures
            r == self@.closed,
    {
        self.closed
    }

    /// Offers `item` to the channel. An open channel with room takes it as
    /// its newest item. A closed channel, and else a full one, hands it back
    /// and stays as it was.
    pub fn send(&mut self, item: WorkItem) -> (r: Result<(), SendError>)
        ensures
            final(self)@.wf(),
            match r {
                Ok(()) => {
                    &&& !old(self)@.closed
                    &&& old(self)@.pending.len() < old(self)@.capacity
                    &&& final(self)@ == (ChannelView {
                        pending: old(self)@.pending.push(item@),
                        sent: old(self)@.sent.push(item@),
                        ..old(self)@
                    })
                },
                Err(SendError::Closed(back)) => {
                    &&& old(self)@.closed
                    &&& back == item
                    &&& final(self)@ == old(self)@
                },
                Err(SendError::Full(back)) => {
                    &&& !old(self)@.closed
                    &&& old(self)@.pending.len() == old(self)@.capacity
                    &&& back == item
                    &&& final(self)@ == old(self)@
                },
            },
    {
        proof {
            use_type_invariant(&*self);
        }
        if self.closed {
            return Err(SendError::Closed(item));
        }
        if self.buffer.len() >= self.capacity {
            return Err(SendError::Full(item));
        }
        let ghost before = self@;
        let ghost added = item@;
        let mut taken = DispatchChannel::new();
        std::mem::swap(self, &mut taken);
        let DispatchChannel { capacity, mut buffer, closed, sent, delivered } = taken;
        buffer.push_back(item);
        proof {
            let pending = buffer@.map_values(|item: WorkItem| item@);
            assert(pending =~= before.pending.push(added));
            assert(before.sent.push(added) =~= before.delivered + pending);
        }
        *self = DispatchChannel {
            capacity,
            buffer,
            closed,
            sent: Ghost(sent@.push(added)),
            delivered,
        };
        Ok(())
    }

    /// Asks the channel for its oldest item. A channel that holds items hands
    /// out the oldest, closed or not. An empty one answers `Closed` when it
    /// was closed, and `Empty` when it was not; it stays as it was.
    pub fn recv(&mut self) -> (r: Received)
        ensures
            final(self)@.wf(),
            match r {
                Received::Item(item) => {
                    &&& old(self)@.pending.len() > 0
                    &&& item@ == old(self)@.pending[0]
                    &&& final(self)@ == (ChannelView {
                        pending: old(self)@.pending.drop_first(),
                        delivered: old(self)@.delivered.push(item@),
                        ..old(self)@
                    })
                },
                Received::Empty => {
                    &&& old(self)@.pending.len() == 0
                    &&& !old(self)@.closed
                    &&& final(self)@ == old(self)@
                },
                Received::Closed => {
                    &&& old(self)@.drained()
                    &&& old(self)@.delivered == old(self)@.sent
                    &&& final(self)@ == old(self)@
                },
            },
    {
        proof {
            use_type_invariant(&*self);
        }
        let ghost before = self@;
        if self.buffer.len() == 0 {
            proof {
                assert(before.sent =~= before.delivered);
            }
            if self.closed {
                return Received::Closed;
            } else {
                return Received::Empty;
            }
        }
        let mut taken = DispatchChannel::new();
        std::mem::swap(self, &mut taken);
        let DispatchChannel { capacity, mut buffer, closed, sent, delivered } = taken;
        let front = buffer.pop_front();
        match front {
            Some(item) => {
                proof {
                    let pending = buffer@.map_values(|item: WorkItem| item@);
                    assert(pending =~= before.pending.drop_first());
                    assert(before.sent =~= before.delivered.push(item@) + pending);
                }
                *self = DispatchChannel {
                    capacity,
                    buffer,
                    closed,
                    sent,
                    delivered: Ghost(delivered@.push(item@)),
                };
                Received::Item(item)
            },
            None => {
                proof {
                    assert(false);
                }
                Received::Empty
            },
        }
    }

    /// Closes the channel: it takes no more items, and hands out those that
    /// it holds before it answers `Closed`. Closing a closed channel changes nothing.
    pub fn close(&mut self)
        ensures
            final(self)@ == (ChannelView { closed: true, ..old(self)@ }),
            final(self)@.wf(),
    {
        proof {
            use_type_invariant(&*self);
        }
        self.closed = true;
    }
}

} // verus!
