//! The bounded channel's shared state and its transition protocol.

use vstd::prelude::*;

verus! {

/// Mathematical model of the channel's shared state.
///
/// Beyond the live fields (queue, closed flag, waiter lists, handle
/// counts), the model carries the full history of the channel: `accepted`
/// records, in order, every item the channel ever took in (enqueued or
/// handed off), and `delivered` records, in order, every item ever claimed
/// by a receive. The invariant `accepted == delivered + queue` ties the
/// histories to the live queue and is what the delivery laws rest on.
pub ghost struct ChannelModel<T> {
    /// Fixed maximum capacity; always positive.
    pub cap: nat,
    /// Items taken in and not yet claimed, oldest first.
    pub queue: Seq<T>,
    /// Monotonic closed flag: once set it is never cleared.
    pub closed: bool,
    /// Pending send requests in order of suspension: waiter id and the
    /// item the suspended sender is still holding.
    pub send_waiters: Seq<(u64, T)>,
    /// Pending receive requests in order of suspension.
    pub recv_waiters: Seq<u64>,
    /// Live sender handles.
    pub senders: nat,
    /// Live receiver handles.
    pub receivers: nat,
    /// Every item the channel ever took in, in order.
    pub accepted: Seq<T>,
    /// Every item ever claimed by a receive, in order.
    pub delivered: Seq<T>,
}

impl<T> ChannelModel<T> {
    /// Some pending send request carries the waiter id `id`.
    pub open spec fn has_send_waiter(self, id: u64) -> bool {
        exists|i: int| 0 <= i < self.send_waiters.len() && self.send_waiters[i].0 == id
    }

    /// Some pending receive request carries the waiter id `id`.
    pub open spec fn has_recv_waiter(self, id: u64) -> bool {
        self.recv_waiters.contains(id)
    }

    /// No waiter id occurs twice within a waiter list, so a wakeup or a
    /// cancellation names exactly one pending request.
    pub open spec fn distinct_waiters(self) -> bool {
        &&& forall|i: int, j: int|
            0 <= i < j < self.send_waiters.len() ==> self.send_waiters[i].0
                != self.send_waiters[j].0
        &&& forall|i: int, j: int|
            0 <= i < j < self.recv_waiters.len() ==> self.recv_waiters[i] != self.recv_waiters[j]
    }

    /// The channel invariant. Established by construction and preserved
    /// by every operation:
    /// - the queue never outgrows the capacity;
    /// - receivers wait only on an empty queue, senders only on a full one;
    /// - a closed channel has no pending requests (closing wakes them all);
    /// - the accepted history is exactly the delivered history followed by
    ///   what is still queued (conservation and FIFO order).
    pub open spec fn inv(self) -> bool {
        &&& self.cap >= 1
        &&& self.queue.len() <= self.cap
        &&& (!self.closed && self.recv_waiters.len() > 0 ==> self.queue.len() == 0)
        &&& (!self.closed && self.send_waiters.len() > 0 ==> self.queue.len() == self.cap)
        &&& (self.closed ==> self.send_waiters.len() == 0)
        &&& (self.closed ==> self.recv_waiters.len() == 0)
        &&& self.accepted == self.delivered + self.queue
        &&& self.distinct_waiters()
    }
}

/// What a send transition did, and the action the caller owes.
#[derive(Debug, PartialEq, Eq)]
pub enum SendStep<T> {
    /// The item was appended at the tail of the queue.
    Sent,
    /// The queue was empty and a receiver was pending: the item was handed
    /// directly to the pending receiver `receiver`, bypassing the queue.
    /// The caller must wake that waiter and give it the item.
    Delivered { receiver: u64, item: T },
    /// The queue was full and no receiver was pending: the caller was
    /// registered as a pending send request under its waiter id, keeping
    /// the item, and must suspend until woken.
    Suspended,
    /// The channel is closed: nothing was enqueued and the item is handed
    /// back to the caller.
    Closed { item: T },
}

/// What a receive transition did, and the action the caller owes.
#[derive(Debug, PartialEq, Eq)]
pub enum RecvStep<T> {
    /// Exactly one item was claimed, the oldest queued. If a sender was
    /// pending, the freed slot was granted to the first-suspended one:
    /// its item is now queued, its id is in `woken_sender`, and the caller
    /// must wake it so it can complete successfully.
    Item { item: T, woken_sender: Option<u64> },
    /// The queue was empty and the channel open: the caller was
    /// registered as a pending receive request under its waiter id and
    /// must suspend until woken.
    Suspended,
    /// The queue was empty and the channel closed: every item taken in
    /// was already claimed and no further one can arrive.
    Closed,
}

/// The wakeups a close owes: every pending request is woken, and none can
/// remain registered afterwards.
pub struct CloseEffects<T> {
    /// Pending send requests at the moment of closing, in suspension
    /// order. Each must be woken to fail with `Closed`; its item was never
    /// enqueued and is handed back to it here.
    pub failed_sends: Vec<(u64, T)>,
    /// Pending receive requests at the moment of closing, in suspension
    /// order. Each must be woken; the queue was empty while they waited,
    /// so each will observe `Closed`.
    pub woken_receivers: Vec<u64>,
}

/// The channel's shared state. One value of this type is the whole
/// channel; sender and receiver handles are recorded as reference counts,
/// and the executor that hosts the channel serializes all access to it.
pub struct ChannelState<T> {
    cap: usize,
    queue: Vec<T>,
    closed: bool,
    send_waiters: Vec<(u64, T)>,
    recv_waiters: Vec<u64>,
    senders: usize,
    receivers: usize,
    accepted: Ghost<Seq<T>>,
    delivered: Ghost<Seq<T>>,
}

impl<T> View for ChannelState<T> {
    type V = ChannelModel<T>;

    closed spec fn view(&self) -> ChannelModel<T> {
        ChannelModel {
            cap: self.cap as nat,
            queue: self.queue@,
            closed: self.closed,
            send_waiters: self.send_waiters@,
            recv_waiters: self.recv_waiters@,
            senders: self.senders as nat,
            receivers: self.receivers as nat,
            accepted: self.accepted@,
            delivered: self.delivered@,
        }
    }
}

impl<T> ChannelState<T> {
    /// Create the shared state of a channel with positive capacity `cap`,
    /// open, empty, with one sender handle and one receiver handle and no
    /// pending requests. A zero capacity (a rendezvous channel) is not
    /// supported: rejecting it at construction is the caller's duty, which
    /// is why it stands in `requires`.
    pub fn new(cap: usize) -> (r: Self)
        requires
            cap >= 1,
        ensures
            r@.inv(),
            r@.cap == cap,
            r@.queue == Seq::<T>::empty(),
            !r@.closed,
            r@.send_waiters == Seq::<(u64, T)>::empty(),
            r@.recv_waiters == Seq::<u64>::empty(),
            r@.senders == 1,
            r@.receivers == 1,
            r@.accepted == Seq::<T>::empty(),
            r@.delivered == Seq::<T>::empty(),
    {
        let r = ChannelState {
            cap,
            queue: Vec::new(),
            closed: false,
            send_waiters: Vec::new(),
            recv_waiters: Vec::new(),
            senders: 1,
            receivers: 1,
            accepted: Ghost(Seq::empty()),
            delivered: Ghost(Seq::empty()),
        };
        proof {
            assert(r@.accepted =~= r@.delivered + r@.queue);
        }
        r
    }

    /// The fixed capacity the channel was created with.
    pub fn capacity(&self) -> (r: usize)
        ensures
            r == self@.cap,
    {
        self.cap
    }

    /// How many items are currently queued.
    pub fn len(&self) -> (r: usize)
        ensures
            r == self@.queue.len(),
    {
        self.queue.len()
    }

    /// Whether the queue currently holds no item.
    pub fn is_empty(&self) -> (r: bool)
        ensures
            r == (self@.queue.len() == 0),
    {
        self.queue.len() == 0
    }

    /// Whether the channel has been closed.
    pub fn is_closed(&self) -> (r: bool)
        ensures
            r == self@.closed,
    {
        self.closed
    }

    /// How many sender handles are live.
    pub fn sender_count(&self) -> (r: usize)
        ensures
            r == self@.senders,
    {
        self.senders
    }

    /// How many receiver handles are live.
    pub fn receiver_count(&self) -> (r: usize)
        ensures
            r == self@.receivers,
    {
        self.receivers
    }

    /// One send transition. `waiter` is the id under which the caller
    /// would suspend; it must not already name a pending send request.
    ///
    /// On a closed channel the send fails with `Closed` and changes
    /// nothing. Otherwise, if a receiver is pending (so the queue is
    /// empty), the item is handed directly to the first-suspended one;
    /// if the queue has room, the item is enqueued; if the queue is full,
    /// the caller suspends as a pending send request. Exactly one of the
    /// four outcomes occurs, and the capacity bound is preserved.
    pub fn send(&mut self, waiter: u64, item: T) -> (r: SendStep<T>)
        requires
            old(self)@.inv(),
            !old(self)@.has_send_waiter(waiter),
        ensures
            final(self)@.inv(),
            final(self)@.cap == old(self)@.cap,
            final(self)@.closed == old(self)@.closed,
            final(self)@.senders == old(self)@.senders,
            final(self)@.receivers == old(self)@.receivers,
            old(self)@.closed ==> r == (SendStep::Closed { item }) && final(self)@ == old(self)@,
            !old(self)@.closed && old(self)@.recv_waiters.len() > 0 ==> {
                &&& r == (SendStep::Delivered { receiver: old(self)@.recv_waiters[0], item })
                &&& final(self)@.recv_waiters == old(self)@.recv_waiters.drop_first()
                &&& final(self)@.send_waiters == old(self)@.send_waiters
                &&& final(self)@.queue == old(self)@.queue
                &&& final(self)@.accepted == old(self)@.accepted.push(item)
                &&& final(self)@.delivered == old(self)@.delivered.push(item)
            },
            !old(self)@.closed && old(self)@.recv_waiters.len() == 0 && old(self)@.queue.len()
                < old(self)@.cap ==> {
                &&& r == SendStep::<T>::Sent
                &&& final(self)@.queue == old(self)@.queue.push(item)
                &&& final(self)@.send_waiters == old(self)@.send_waiters
                &&& final(self)@.recv_waiters == old(self)@.recv_waiters
                &&& final(self)@.accepted == old(self)@.accepted.push(item)
                &&& final(self)@.delivered == old(self)@.delivered
            },
            !old(self)@.closed && old(self)@.recv_waiters.len() == 0 && old(self)@.queue.len()
                == old(self)@.cap ==> {
                &&& r == SendStep::<T>::Suspended
                &&& final(self)@.send_waiters == old(self)@.send_waiters.push((waiter, item))
                &&& final(self)@.queue == old(self)@.queue
                &&& final(self)@.recv_waiters == old(self)@.recv_waiters
                &&& final(self)@.accepted == old(self)@.accepted
                &&& final(self)@.delivered == old(self)@.delivered
            },
    {
        if self.closed {
            SendStep::Closed { item }
        } else if self.recv_waiters.len() > 0 {
            let receiver = self.recv_waiters.remove(0);
            self.accepted = Ghost(self.accepted@.push(item));
            self.delivered = Ghost(self.delivered@.push(item));
            proof {
                assert(self.recv_waiters@ =~= old(self).recv_waiters@.drop_first());
                assert(self@.accepted =~= self@.delivered + self@.queue);
            }
            SendStep::Delivered { receiver, item }
        } else if self.queue.len() < self.cap {
            self.accepted = Ghost(self.accepted@.push(item));
            self.queue.push(item);
            proof {
                assert(self@.accepted =~= self@.delivered + self@.queue);
            }
            SendStep::Sent
        } else {
            self.send_waiters.push((waiter, item));
            proof {
                assert forall|i: int, j: int|
                    0 <= i < j < self@.send_waiters.len() implies self@.send_waiters[i].0
                    != self@.send_waiters[j].0 by {
                    if j == self@.send_waiters.len() - 1 {
                        assert(!old(self)@.has_send_waiter(waiter));
                        assert(old(self)@.send_waiters[i].0 != waiter);
                    }
                }
            }
            SendStep::Suspended
        }
    }

    /// One receive transition. `waiter` is the id under which the caller
    /// would suspend; it must not already name a pending receive request.
    ///
    /// If an item is queued, the oldest one is claimed — no other receive
    /// can ever claim it again — and, if a sender is pending, the freed
    /// slot goes to the first-suspended one, whose item enters the queue.
    /// Items queued before a close are still claimed this way; only on an
    /// empty queue does a closed channel answer `Closed`. On an empty
    /// queue of an open channel the caller suspends.
    pub fn recv(&mut self, waiter: u64) -> (r: RecvStep<T>)
        requires
            old(self)@.inv(),
            !old(self)@.has_recv_waiter(waiter),
        ensures
            final(self)@.inv(),
            final(self)@.cap == old(self)@.cap,
            final(self)@.closed == old(self)@.closed,
            final(self)@.senders == old(self)@.senders,
            final(self)@.receivers == old(self)@.receivers,
            old(self)@.queue.len() > 0 && old(self)@.send_waiters.len() > 0 ==> {
                &&& r == (RecvStep::Item {
                    item: old(self)@.queue[0],
                    woken_sender: Some(old(self)@.send_waiters[0].0),
                })
                &&& final(self)@.queue == old(self)@.queue.drop_first().push(
                    old(self)@.send_waiters[0].1,
                )
                &&& final(self)@.send_waiters == old(self)@.send_waiters.drop_first()
                &&& final(self)@.recv_waiters == old(self)@.recv_waiters
                &&& final(self)@.accepted == old(self)@.accepted.push(old(self)@.send_waiters[0].1)
                &&& final(self)@.delivered == old(self)@.delivered.push(old(self)@.queue[0])
            },
            old(self)@.queue.len() > 0 && old(self)@.send_waiters.len() == 0 ==> {
                &&& r == (RecvStep::Item { item: old(self)@.queue[0], woken_sender: None })
                &&& final(self)@.queue == old(self)@.queue.drop_first()
                &&& final(self)@.send_waiters == old(self)@.send_waiters
                &&& final(self)@.recv_waiters == old(self)@.recv_waiters
                &&& final(self)@.accepted == old(self)@.accepted
                &&& final(self)@.delivered == old(self)@.delivered.push(old(self)@.queue[0])
            },
            old(self)@.queue.len() == 0 && old(self)@.closed ==> r == RecvStep::<T>::Closed
                && final(self)@ == old(self)@,
            old(self)@.queue.len() == 0 && !old(self)@.closed ==> {
                &&& r == RecvStep::<T>::Suspended
                &&& final(self)@.recv_waiters == old(self)@.recv_waiters.push(waiter)
                &&& final(self)@.queue == old(self)@.queue
                &&& final(self)@.send_waiters == old(self)@.send_waiters
                &&& final(self)@.accepted == old(self)@.accepted
                &&& final(self)@.delivered == old(self)@.delivered
            },
    {
        if self.queue.len() > 0 {
            let item = self.queue.remove(0);
            self.delivered = Ghost(self.delivered@.push(item));
            proof {
                assert(self.queue@ =~= old(self).queue@.drop_first());
            }
            if self.send_waiters.len() > 0 {
                let (sid, witem) = self.send_waiters.remove(0);
                self.accepted = Ghost(self.accepted@.push(witem));
                self.queue.push(witem);
                proof {
                    assert(self.send_waiters@ =~= old(self).send_waiters@.drop_first());
                    assert(self@.accepted =~= self@.delivered + self@.queue);
                }
                RecvStep::Item { item, woken_sender: Some(sid) }
            } else {
                proof {
                    assert(self@.accepted =~= self@.delivered + self@.queue);
                }
                RecvStep::Item { item, woken_sender: None }
            }
        } else if self.closed {
            RecvStep::Closed
        } else {
            self.recv_waiters.push(waiter);
            proof {
                assert forall|i: int, j: int|
                    0 <= i < j < self@.recv_waiters.len() implies self@.recv_waiters[i]
                    != self@.recv_waiters[j] by {
                    if j == self@.recv_waiters.len() - 1 {
                        assert(!old(self)@.recv_waiters.contains(waiter));
                        assert(old(self)@.recv_waiters[i] != waiter);
                    }
                }
            }
            RecvStep::Suspended
        }
    }

    /// Close the channel: idempotent and irreversible. Every pending
    /// request is deregistered and returned so the caller can wake it —
    /// senders fail with `Closed` and get their items back, receivers will
    /// observe `Closed`. Nothing queued is lost: the queue is untouched
    /// and its items remain claimable by later receives.
    pub fn close(&mut self) -> (r: CloseEffects<T>)
        requires
            old(self)@.inv(),
        ensures
            final(self)@.inv(),
            final(self)@.closed,
            final(self)@.cap == old(self)@.cap,
            final(self)@.queue == old(self)@.queue,
            final(self)@.senders == old(self)@.senders,
            final(self)@.receivers == old(self)@.receivers,
            final(self)@.send_waiters == Seq::<(u64, T)>::empty(),
            final(self)@.recv_waiters == Seq::<u64>::empty(),
            final(self)@.accepted == old(self)@.accepted,
            final(self)@.delivered == old(self)@.delivered,
            r.failed_sends@ == old(self)@.send_waiters,
            r.woken_receivers@ == old(self)@.recv_waiters,
            old(self)@.closed ==> final(self)@ == old(self)@,
    {
        self.closed = true;
        let mut failed_sends: Vec<(u64, T)> = Vec::new();
        let mut woken_receivers: Vec<u64> = Vec::new();
        core::mem::swap(&mut failed_sends, &mut self.send_waiters);
        core::mem::swap(&mut woken_receivers, &mut self.recv_waiters);
        proof {
            assert(self.send_waiters@ =~= Seq::<(u64, T)>::empty());
            assert(self.recv_waiters@ =~= Seq::<u64>::empty());
            if old(self)@.closed {
                assert(self.send_waiters@ =~= old(self).send_waiters@);
                assert(self.recv_waiters@ =~= old(self).recv_waiters@);
            }
        }
        CloseEffects { failed_sends, woken_receivers }
    }

    /// Record a new sender handle: cloning a sender increments the sender
    /// count and has no other effect.
    pub fn clone_sender(&mut self)
        requires
            old(self)@.inv(),
            1 <= old(self)@.senders < usize::MAX,
        ensures
            final(self)@.inv(),
            final(self)@ == (ChannelModel { senders: old(self)@.senders + 1, ..old(self)@ }),
    {
        self.senders = self.senders + 1;
    }

    /// Record a new receiver handle: cloning a receiver increments the
    /// receiver count and has no other effect.
    pub fn clone_receiver(&mut self)
        requires
            old(self)@.inv(),
            1 <= old(self)@.receivers < usize::MAX,
        ensures
            final(self)@.inv(),
            final(self)@ == (ChannelModel { receivers: old(self)@.receivers + 1, ..old(self)@ }),
    {
        self.receivers = self.receivers + 1;
    }

    /// Record that a sender handle was dropped. Dropping the last sender
    /// closes the channel implicitly: the close effects are returned and
    /// owed exactly as for `close`. Dropping any other sender has no
    /// effect beyond the count.
    pub fn drop_sender(&mut self) -> (r: Option<CloseEffects<T>>)
        requires
            old(self)@.inv(),
            old(self)@.senders >= 1,
        ensures
            final(self)@.inv(),
            final(self)@.senders == old(self)@.senders - 1,
            final(self)@.cap == old(self)@.cap,
            final(self)@.queue == old(self)@.queue,
            final(self)@.receivers == old(self)@.receivers,
            final(self)@.accepted == old(self)@.accepted,
            final(self)@.delivered == old(self)@.delivered,
            old(self)@.senders > 1 ==> {
                &&& r is None
                &&& final(self)@.closed == old(self)@.closed
                &&& final(self)@.send_waiters == old(self)@.send_waiters
                &&& final(self)@.recv_waiters == old(self)@.recv_waiters
            },
            old(self)@.senders == 1 ==> {
                &&& final(self)@.closed
                &&& final(self)@.send_waiters == Seq::<(u64, T)>::empty()
                &&& final(self)@.recv_waiters == Seq::<u64>::empty()
                &&& r matches Some(eff) && eff.failed_sends@ == old(self)@.send_waiters
                    && eff.woken_receivers@ == old(self)@.recv_waiters
            },
    {
        self.senders = self.senders - 1;
        if self.senders == 0 {
            Some(self.close())
        } else {
            None
        }
    }

    /// Record that a receiver handle was dropped. This channel's policy
    /// for the last receiver, chosen and documented here: dropping it
    /// closes the channel, so later sends fail with `Closed` rather than
    /// filling a queue nobody can drain; items still queued stay in the
    /// state but no receive will come for them. Dropping any other
    /// receiver has no effect beyond the count.
    pub fn drop_receiver(&mut self) -> (r: Option<CloseEffects<T>>)
        requires
            old(self)@.inv(),
            old(self)@.receivers >= 1,
        ensures
            final(self)@.inv(),
            final(self)@.receivers == old(self)@.receivers - 1,
            final(self)@.cap == old(self)@.cap,
            final(self)@.queue == old(self)@.queue,
            final(self)@.senders == old(self)@.senders,
            final(self)@.accepted == old(self)@.accepted,
            final(self)@.delivered == old(self)@.delivered,
            old(self)@.receivers > 1 ==> {
                &&& r is None
                &&& final(self)@.closed == old(self)@.closed
                &&& final(self)@.send_waiters == old(self)@.send_waiters
                &&& final(self)@.recv_waiters == old(self)@.recv_waiters
            },
            old(self)@.receivers == 1 ==> {
                &&& final(self)@.closed
                &&& final(self)@.send_waiters == Seq::<(u64, T)>::empty()
                &&& final(self)@.recv_waiters == Seq::<u64>::empty()
                &&& r matches Some(eff) && eff.failed_sends@ == old(self)@.send_waiters
                    && eff.woken_receivers@ == old(self)@.recv_waiters
            },
    {
        self.receivers = self.receivers - 1;
        if self.receivers == 0 {
            Some(self.close())
        } else {
            None
        }
    }

    /// Deregister the pending send request named `waiter`, because the
    /// task that suspended under that id abandoned the call before being
    /// woken. If the request is present it vanishes cleanly — its item,
    /// never enqueued, is handed back and no phantom waiter remains; if
    /// no such request is pending, nothing changes.
    pub fn cancel_send(&mut self, waiter: u64) -> (r: Option<T>)
        requires
            old(self)@.inv(),
        ensures
            final(self)@.inv(),
            final(self)@.cap == old(self)@.cap,
            final(self)@.closed == old(self)@.closed,
            final(self)@.senders == old(self)@.senders,
            final(self)@.receivers == old(self)@.receivers,
            final(self)@.queue == old(self)@.queue,
            final(self)@.recv_waiters == old(self)@.recv_waiters,
            final(self)@.accepted == old(self)@.accepted,
            final(self)@.delivered == old(self)@.delivered,
            !old(self)@.has_send_waiter(waiter) ==> r is None && final(self)@ == old(self)@,
            old(self)@.has_send_waiter(waiter) ==> exists|i: int|
                {
                    &&& 0 <= i < old(self)@.send_waiters.len()
                    &&& old(self)@.send_waiters[i].0 == waiter
                    &&& r == Some(old(self)@.send_waiters[i].1)
                    &&& final(self)@.send_waiters == old(self)@.send_waiters.remove(i)
                },
    {
        let mut idx: usize = 0;
        while idx < self.send_waiters.len()
            invariant
                old(self)@.inv(),
                *self == *old(self),
                forall|k: int| 0 <= k < idx ==> self.send_waiters@[k].0 != waiter,
            decreases self.send_waiters@.len() - idx,
        {
            if self.send_waiters[idx].0 == waiter {
                let ghost i = idx as int;
                let entry = self.send_waiters.remove(idx);
                proof {
                    let olds = old(self).send_waiters@;
                    let news = self.send_waiters@;
                    olds.remove_ensures(i);
                    assert(old(self)@.send_waiters[i].0 == waiter);
                    assert forall|a: int, b: int|
                        0 <= a < b < news.len() implies news[a].0 != news[b].0 by {
                        let oa: int = if a < i {
                            a
                        } else {
                            a + 1
                        };
                        let ob: int = if b < i {
                            b
                        } else {
                            b + 1
                        };
                        assert(news[a] == olds[oa]);
                        assert(news[b] == olds[ob]);
                        assert(old(self)@.send_waiters[oa].0 != old(self)@.send_waiters[ob].0);
                    }
                    assert(old(self)@.has_send_waiter(waiter));
                }
                return Some(entry.1);
            }
            idx = idx + 1;
        }
        proof {
            assert(!old(self)@.has_send_waiter(waiter));
        }
        None
    }

    /// Deregister the pending receive request named `waiter`, because the
    /// task that suspended under that id abandoned the call before being
    /// woken. If the request is present it vanishes cleanly, consuming no
    /// item meant for it; if no such request is pending, nothing changes.
    /// Returns whether a request was removed.
    pub fn cancel_recv(&mut self, waiter: u64) -> (r: bool)
        requires
            old(self)@.inv(),
        ensures
            final(self)@.inv(),
            final(self)@.cap == old(self)@.cap,
            final(self)@.closed == old(self)@.closed,
            final(self)@.senders == old(self)@.senders,
            final(self)@.receivers == old(self)@.receivers,
            final(self)@.queue == old(self)@.queue,
            final(self)@.send_waiters == old(self)@.send_waiters,
            final(self)@.accepted == old(self)@.accepted,
            final(self)@.delivered == old(self)@.delivered,
            r == old(self)@.has_recv_waiter(waiter),
            !old(self)@.has_recv_waiter(waiter) ==> final(self)@ == old(self)@,
            old(self)@.has_recv_waiter(waiter) ==> exists|i: int|
                {
                    &&& 0 <= i < old(self)@.recv_waiters.len()
                    &&& old(self)@.recv_waiters[i] == waiter
                    &&& final(self)@.recv_waiters == old(self)@.recv_waiters.remove(i)
                },
    {
        let mut idx: usize = 0;
        while idx < self.recv_waiters.len()
            invariant
                old(self)@.inv(),
                *self == *old(self),
                forall|k: int| 0 <= k < idx ==> self.recv_waiters@[k] != waiter,
            decreases self.recv_waiters@.len() - idx,
        {
            if self.recv_waiters[idx] == waiter {
                let ghost i = idx as int;
                self.recv_waiters.remove(idx);
                proof {
                    let olds = old(self).recv_waiters@;
                    let news = self.recv_waiters@;
                    olds.remove_ensures(i);
                    assert(old(self)@.recv_waiters[i] == waiter);
                    assert forall|a: int, b: int|
                        0 <= a < b < news.len() implies news[a] != news[b] by {
                        let oa: int = if a < i {
                            a
                        } else {
                            a + 1
                        };
                        let ob: int = if b < i {
                            b
                        } else {
                            b + 1
                        };
                        assert(news[a] == olds[oa]);
                        assert(news[b] == olds[ob]);
                        assert(old(self)@.recv_waiters[oa] != old(self)@.recv_waiters[ob]);
                    }
                    assert(old(self)@.recv_waiters.contains(waiter));
                }
                return true;
            }
            idx = idx + 1;
        }
        proof {
            assert(!old(self)@.recv_waiters.contains(waiter));
        }
        false
    }

    /// Claim every item still queued on a closed channel, oldest first,
    /// by repeated receives. Closing with some number of items queued
    /// lets exactly that many receives succeed, in the order the items
    /// were accepted; afterwards the state is terminal and every further
    /// send or receive observes `Closed`.
    pub fn drain(&mut self) -> (r: Vec<T>)
        requires
            old(self)@.inv(),
            old(self)@.closed,
        ensures
            final(self)@.inv(),
            final(self)@.closed,
            r@ == old(self)@.queue,
            final(self)@.queue == Seq::<T>::empty(),
            final(self)@.cap == old(self)@.cap,
            final(self)@.senders == old(self)@.senders,
            final(self)@.receivers == old(self)@.receivers,
            final(self)@.send_waiters == Seq::<(u64, T)>::empty(),
            final(self)@.recv_waiters == Seq::<u64>::empty(),
            final(self)@.accepted == old(self)@.accepted,
            final(self)@.delivered == old(self)@.delivered + old(self)@.queue,
    {
        let mut out: Vec<T> = Vec::new();
        while self.queue.len() > 0
            invariant
                self@.inv(),
                self@.closed,
                self@.cap == old(self)@.cap,
                self@.senders == old(self)@.senders,
                self@.receivers == old(self)@.receivers,
                self@.accepted == old(self)@.accepted,
                out@ + self@.queue == old(self)@.queue,
                self@.delivered == old(self)@.delivered + out@,
            decreases self@.queue.len(),
        {
            let ghost prev_out = out@;
            let ghost prev_queue = self@.queue;
            match self.recv(0) {
                RecvStep::Item { item, woken_sender: _ } => {
                    out.push(item);
                    proof {
                        assert(out@ + self@.queue =~= prev_out + prev_queue);
                        assert(self@.delivered =~= old(self)@.delivered + out@);
                    }
                },
                RecvStep::Suspended => {
                    proof {
                        assert(false);
                    }
                },
                RecvStep::Closed => {
                    proof {
                        assert(false);
                    }
                },
            }
        }
        proof {
            assert(out@ =~= old(self)@.queue);
            assert(self@.queue =~= Seq::<T>::empty());
            assert(self@.send_waiters =~= Seq::<(u64, T)>::empty());
            assert(self@.recv_waiters =~= Seq::<u64>::empty());
        }
        out
    }
}

} // verus!
