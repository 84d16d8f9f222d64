//! Delivery laws of the channel, proved from the invariant alone, so they
//! hold of every state every operation can reach.

use vstd::prelude::*;

use crate::channel::ChannelModel;

verus! {

/// Law: the queue length never exceeds the capacity and is never
/// negative. Every operation requires and preserves the invariant, so
/// this bound holds in every reachable state.
pub proof fn lemma_queue_bounded<T>(m: ChannelModel<T>)
    requires
        m.inv(),
    ensures
        0 <= m.queue.len() <= m.cap,
{
}

/// Law: single consumption. The history of claimed items is a prefix of
/// the history of accepted items, so the k-th successful receive claims
/// exactly the k-th item the channel took in: no position in the accepted
/// history is ever claimed by two receives, and no receive claims an item
/// the channel never took in.
pub proof fn lemma_delivery_unique<T>(m: ChannelModel<T>)
    requires
        m.inv(),
    ensures
        m.delivered.len() <= m.accepted.len(),
        m.delivered == m.accepted.take(m.delivered.len() as int),
        forall|k: int| 0 <= k < m.delivered.len() ==> m.delivered[k] == m.accepted[k],
{
    assert(m.delivered =~= m.accepted.take(m.delivered.len() as int));
}

/// Law: conservation. Once the queue is empty, every item the channel
/// ever took in has been claimed by exactly one receive: with N items
/// accepted there were exactly N successful receives, however many
/// consumers shared in them.
pub proof fn lemma_drained_means_all_delivered<T>(m: ChannelModel<T>)
    requires
        m.inv(),
        m.queue.len() == 0,
    ensures
        m.delivered == m.accepted,
        m.delivered.len() == m.accepted.len(),
{
    assert(m.delivered =~= m.accepted);
}

/// Law: FIFO order. What is still queued is exactly the accepted history
/// with the claimed prefix cut off, in acceptance order — items leave
/// the channel in the order they entered it.
pub proof fn lemma_queue_is_accepted_suffix<T>(m: ChannelModel<T>)
    requires
        m.inv(),
    ensures
        m.queue == m.accepted.skip(m.delivered.len() as int),
{
    assert(m.queue =~= m.accepted.skip(m.delivered.len() as int));
}

} // verus!
