//! What each operation does to a channel and what comes back, in terms of the parts of the channel.
use std::task::Waker;
use vstd::prelude::*;
use super::error::{TryRecvError, TrySendError};
use super::model::ChanView;
use super::waiter::{Entry, Waiter, WaiterState};

verus! {

/// A channel that was asked to hold so many items holds exactly that many, as far as they can be
/// counted.
pub proof fn law_bound_is_the_capacity(capacity: usize)
    ensures
        capacity <= usize::MAX / 2 ==> super::chan::bound_of(capacity) == capacity as nat,
        capacity > usize::MAX / 2 ==> super::chan::bound_of(capacity) == (usize::MAX / 2) as nat,
{
}

/// A new channel is open, holds nothing, and nobody waits on it.
pub proof fn law_new_channel_is_empty<T>(bound: Option<nat>)
    ensures
        ({
            let chan = ChanView::<T>::empty(bound);
            &&& chan.bound == bound
            &&& chan.items.len() == 0
            &&& !chan.closed
            &&& chan.senders.len() == 0
            &&& chan.receivers.len() == 0
            &&& forall|k: usize| !(#[trigger] chan.waiters.contains_key(k))
        }),
{
}

/// The channel after these items were sent at once, one after the other.
pub open spec fn after_sends<T>(chan: ChanView<T>, items: Seq<T>) -> ChanView<T>
    decreases items.len(),
{
    if items.len() == 0 {
        chan
    } else {
        after_sends(chan, items.drop_last()).after_send(items.last())
    }
}

/// What `n` sends to a new channel leave, where it takes them all.
proof fn lemma_sends<T>(bound: Option<nat>, items: Seq<T>)
    requires
        bound is Some ==> items.len() <= bound->0,
    ensures
        ({
            let chan = after_sends(ChanView::empty(bound), items);
            &&& chan.items == items
            &&& chan.bound == bound
            &&& !chan.closed
            &&& chan.receivers.len() == 0
        }),
    decreases items.len(),
{
    if items.len() > 0 {
        lemma_sends(bound, items.drop_last());
        assert(items.drop_last().push(items.last()) =~= items);
    } else {
        assert(items =~= Seq::empty());
    }
}

/// Of the items that are sent to a new channel, it takes the first ones up to the capacity that it
/// was asked for and holds them in their order, and refuses the next one as too many.
pub proof fn law_takes_as_many_as_asked_for<T>(capacity: usize, items: Seq<T>, next: T)
    requires
        capacity <= usize::MAX / 2,
        items.len() <= capacity,
    ensures
        ({
            let chan = after_sends(
                ChanView::empty(Some(super::chan::bound_of(capacity))),
                items,
            );
            &&& chan.items == items
            &&& items.len() < capacity ==> chan.send_result(next) == Ok::<
                Option<Waker>,
                TrySendError<T>,
            >(None)
            &&& items.len() == capacity ==> chan.send_result(next) == Err::<
                Option<Waker>,
                TrySendError<T>,
            >(TrySendError::Full(next))
        }),
{
    lemma_sends(Some(super::chan::bound_of(capacity)), items);
}

/// A new channel without a bound takes any number of items, and holds them in their order.
pub proof fn law_unbounded_takes_any_number<T>(items: Seq<T>, next: T)
    ensures
        ({
            let chan = after_sends(ChanView::empty(None), items);
            &&& chan.items == items
            &&& chan.send_result(next) == Ok::<Option<Waker>, TrySendError<T>>(None)
        }),
{
    lemma_sends(None, items);
}

/// When an item can be sent and received at all, as far as the queues and the size of the buffer
/// go.
pub proof fn law_when_items_can_move<T>(chan: ChanView<T>)
    ensures
        chan.can_send() == ((chan.closed || chan.receivers.len() != 1) && (chan.bound is Some
            || chan.items.len() <= usize::MAX / 4)),
        chan.can_recv() == (chan.closed || chan.senders.len() != 1),
{
}

/// Sending at once succeeds exactly where the channel is open and somebody waits to receive or
/// there is room. Each refusal gives its own reason and the item back, and changes nothing.
pub proof fn law_when_sending_succeeds<T>(chan: ChanView<T>, item: T)
    ensures
        chan.send_result(item) is Ok <==> !chan.closed && (chan.receivers.len() > 0
            || chan.bound is None || chan.items.len() != chan.bound->0),
        chan.closed ==> (chan.send_result(item) matches Err(TrySendError::Closed(back)) && back
            == item),
        !chan.closed && chan.send_result(item) is Err ==> (chan.send_result(item) matches Err(
            TrySendError::Full(back),
        ) && back == item),
        chan.send_result(item) is Err ==> {
            let after = chan.after_send(item);
            &&& after.items == chan.items
            &&& after.bound == chan.bound
            &&& after.closed == chan.closed
            &&& after.senders == chan.senders
            &&& after.receivers == chan.receivers
            &&& after.waiters == chan.waiters
        },
{
}

/// An item that goes into the buffer stands behind the others, wakes nobody, and changes nothing
/// else.
pub proof fn law_sent_item_goes_last<T>(chan: ChanView<T>, item: T)
    requires
        chan.receivers.len() == 0,
        chan.send_result(item) is Ok,
    ensures
        ({
            let after = chan.after_send(item);
            &&& chan.send_result(item)->Ok_0 is None
            &&& after.items.len() == chan.items.len() + 1
            &&& after.items[chan.items.len() as int] == item
            &&& forall|i: int|
                0 <= i < chan.items.len() ==> #[trigger] after.items[i] == chan.items[i]
            &&& after.bound == chan.bound
            &&& after.closed == chan.closed
            &&& after.senders == chan.senders
            &&& after.receivers == chan.receivers
            &&& after.waiters == chan.waiters
        }),
{
}

/// An item that is sent while tasks wait for one is with the task that has waited longest, whose
/// waker comes back unless it is just registering anew. Nothing else changes.
pub proof fn law_sent_item_goes_to_the_first_receiver<T>(chan: ChanView<T>, item: T)
    requires
        chan.wf(),
        !chan.closed,
        chan.receivers.len() > 0,
    ensures
        ({
            let first = chan.receivers[0];
            let slot = chan.waiters[first].waker;
            let after = chan.after_send(item);
            &&& chan.send_result(item) is Ok
            &&& slot.state == 1 ==> chan.send_result(item)->Ok_0 == slot.waker
            &&& slot.state != 1 ==> chan.send_result(item)->Ok_0 is None
            &&& after.waiters[first].state == WaiterState::Received(item)
            &&& after.waiters[first].waker.state == 3
            &&& after.receivers == chan.receivers.subrange(1, chan.receivers.len() as int)
            &&& forall|k: usize| #[trigger]
                after.waiters.contains_key(k) == chan.waiters.contains_key(k)
            &&& forall|k: usize|
                k != first ==> #[trigger] after.waiters[k] == chan.waiters[k]
            &&& after.items == chan.items
            &&& after.bound == chan.bound
            &&& after.closed == chan.closed
            &&& after.senders == chan.senders
        }),
{
    assert(chan.receivers.contains(chan.receivers[0]));
}

/// Receiving at once succeeds exactly where the channel is open and somebody waits to send or
/// there is an item. Each failure gives its own reason and changes nothing.
pub proof fn law_when_receiving_succeeds<T>(chan: ChanView<T>)
    ensures
        chan.recv_result() is Ok <==> !chan.closed && (chan.senders.len() > 0 || chan.items.len()
            > 0),
        chan.closed ==> chan.recv_result() matches Err(TryRecvError::Closed),
        !chan.closed && chan.recv_result() is Err ==> chan.recv_result() matches Err(
            TryRecvError::Empty,
        ),
        chan.recv_result() is Err ==> {
            let after = chan.after_recv();
            &&& after.items == chan.items
            &&& after.bound == chan.bound
            &&& after.closed == chan.closed
            &&& after.senders == chan.senders
            &&& after.receivers == chan.receivers
            &&& after.waiters == chan.waiters
        },
{
}

/// Where nobody waits to send, the oldest item is received, the others keep their order, nobody is
/// woken, and nothing else changes.
pub proof fn law_oldest_item_is_received<T>(chan: ChanView<T>)
    requires
        chan.senders.len() == 0,
        chan.recv_result() is Ok,
    ensures
        ({
            let after = chan.after_recv();
            &&& chan.recv_result()->Ok_0.0 == chan.items[0]
            &&& chan.recv_result()->Ok_0.1 is None
            &&& after.items.len() + 1 == chan.items.len()
            &&& forall|i: int|
                0 <= i < after.items.len() ==> #[trigger] after.items[i] == chan.items[i + 1]
            &&& after.bound == chan.bound
            &&& after.closed == chan.closed
            &&& after.senders == chan.senders
            &&& after.receivers == chan.receivers
            &&& after.waiters == chan.waiters
        }),
{
}

/// Where tasks wait to send, the item of the one that has waited longest is received. It is told so,
/// and its waker comes back unless it is just registering anew. Nothing else changes.
pub proof fn law_item_of_the_first_sender_is_received<T>(chan: ChanView<T>)
    requires
        chan.wf(),
        !chan.closed,
        chan.senders.len() > 0,
    ensures
        ({
            let first = chan.senders[0];
            let slot = chan.waiters[first].waker;
            let after = chan.after_recv();
            &&& chan.recv_result() is Ok
            &&& chan.waiters[first].state == WaiterState::Sending(chan.recv_result()->Ok_0.0)
            &&& slot.state == 1 ==> chan.recv_result()->Ok_0.1 == slot.waker
            &&& slot.state != 1 ==> chan.recv_result()->Ok_0.1 is None
            &&& after.waiters[first].state == WaiterState::<T>::Sent
            &&& after.waiters[first].waker.state == 3
            &&& after.senders == chan.senders.subrange(1, chan.senders.len() as int)
            &&& forall|k: usize| #[trigger]
                after.waiters.contains_key(k) == chan.waiters.contains_key(k)
            &&& forall|k: usize|
                k != first ==> #[trigger] after.waiters[k] == chan.waiters[k]
            &&& after.items == chan.items
            &&& after.bound == chan.bound
            &&& after.closed == chan.closed
            &&& after.receivers == chan.receivers
        }),
{
    assert(chan.senders.contains(chan.senders[0]));
}

/// An item that is sent to an open channel which holds nothing and on which nobody waits is the one
/// that is received next, and then the channel is as it was.
pub proof fn law_what_is_sent_is_received<T>(chan: ChanView<T>, item: T)
    requires
        !chan.closed,
        chan.items.len() == 0,
        chan.senders.len() == 0,
        chan.receivers.len() == 0,
        chan.bound != Some(0nat),
    ensures
        chan.after_send(item).recv_result() == Ok::<(T, Option<Waker>), TryRecvError>((item, None)),
        chan.after_send(item).after_recv() == chan,
{
    assert(chan.after_send(item).after_recv() =~= chan);
}

/// A closed channel is closed, holds nothing and has empty queues. Each sender that waited gets its
/// own item back, each receiver that waited gets none, and both are marked as woken; every other
/// waiter is as it was.
pub proof fn law_closing_gives_items_back<T>(chan: ChanView<T>)
    requires
        chan.wf(),
    ensures
        ({
            let after = chan.closed_down();
            &&& after.closed
            &&& after.items.len() == 0
            &&& after.bound == chan.bound
            &&& after.senders.len() == 0
            &&& after.receivers.len() == 0
            &&& forall|k: usize| #[trigger]
                after.waiters.contains_key(k) == chan.waiters.contains_key(k)
            &&& forall|k: usize| #[trigger]
                chan.senders.contains(k) ==> {
                    &&& chan.waiters[k].state == WaiterState::Sending(
                        chan.waiters[k].state->Sending_0,
                    )
                    &&& after.waiters[k].state == WaiterState::Closed(
                        Some(chan.waiters[k].state->Sending_0),
                    )
                    &&& after.waiters[k].waker.state == 3
                }
            &&& forall|k: usize| #[trigger]
                chan.receivers.contains(k) ==> {
                    &&& after.waiters[k].state == WaiterState::<T>::Closed(None)
                    &&& after.waiters[k].waker.state == 3
                }
            &&& forall|k: usize| #[trigger]
                chan.waiters.contains_key(k) && !chan.senders.contains(k)
                    && !chan.receivers.contains(k) ==> after.waiters[k] == chan.waiters[k]
        }),
{
    super::keys::lemma_concat(chan.senders, chan.receivers);
}

/// A waiter that is told that the channel is closed gets its item back where it was to send one, and
/// is marked as woken. One that is not told stays as it was.
pub proof fn law_who_is_told_and_what<T>(
    entries: Map<usize, Entry<T>>,
    nodes: Map<usize, Waiter<T>>,
    keys: Seq<usize>,
    key: usize,
)
    ensures
        ({
            let told = super::closed::closed_entries(entries, keys);
            &&& told.contains_key(key) == entries.contains_key(key)
            &&& entries.contains_key(key) && !keys.contains(key) ==> told[key] == entries[key]
            &&& entries.contains_key(key) && keys.contains(key) ==> {
                &&& told[key].waker.state == 3
                &&& entries[key].state matches WaiterState::Sending(item) ==> told[key].state
                    == WaiterState::Closed(Some(item))
                &&& entries[key].state is Receiving ==> told[key].state
                    == WaiterState::<T>::Closed(None)
            }
        }),
        ({
            let told = super::closed::closed_nodes(nodes, keys);
            &&& told.contains_key(key) == nodes.contains_key(key)
            &&& nodes.contains_key(key) && !keys.contains(key) ==> told[key] == nodes[key]
            &&& nodes.contains_key(key) && keys.contains(key) ==> {
                &&& told[key].atomic_waker.state == 3
                &&& nodes[key].state matches WaiterState::Sending(item) ==> told[key].state
                    == WaiterState::Closed(Some(item))
                &&& nodes[key].state is Receiving ==> told[key].state
                    == WaiterState::<T>::Closed(None)
                &&& told[key].prev == nodes[key].prev
                &&& told[key].next == nodes[key].next
                &&& told[key].tail == nodes[key].tail
            }
        }),
{
}

/// What is left when a channel is closed and nobody has been told yet: nothing but the waiters.
pub proof fn law_closing_empties_the_channel<T>(chan: ChanView<T>)
    ensures
        ({
            let after = chan.after_close();
            &&& after.closed
            &&& after.items.len() == 0
            &&& after.bound == chan.bound
            &&& after.senders.len() == 0
            &&& after.receivers.len() == 0
            &&& after.waiters == chan.waiters
        }),
{
}

/// The wakers that are handed out are those of the waiters, in their order, but for waiters that are
/// just registering anew: one more waiter adds its own waker at the end, or none.
pub proof fn law_wakers_come_in_order<T>(
    entries: Map<usize, Entry<T>>,
    keys: Seq<usize>,
    key: usize,
)
    ensures
        super::closed::wakers_of(entries, Seq::empty()).len() == 0,
        entries[key].waker.state == 1 && entries[key].waker.waker is Some
            ==> super::closed::wakers_of(entries, keys.push(key)) == super::closed::wakers_of(
            entries,
            keys,
        ).push(entries[key].waker.waker->0),
        entries[key].waker.state != 1 ==> super::closed::wakers_of(entries, keys.push(key))
            == super::closed::wakers_of(entries, keys),
    decreases keys.len(),
{
    reveal_with_fuel(super::closed::wakers_of, 2);
    let more = keys.push(key);
    if keys.len() == 0 {
        assert(more.drop_first() =~= Seq::empty());
        assert(keys =~= Seq::empty());
        assert(more[0] == key);
        assert(super::closed::wakers_of(entries, keys) =~= Seq::empty());
        if entries[key].waker.state == 1 && entries[key].waker.waker is Some {
            assert(super::closed::wakers_of(entries, more) =~= super::closed::wakers_of(
                entries,
                keys,
            ).push(entries[key].waker.waker->0));
        }
    } else {
        law_wakers_come_in_order(entries, keys.drop_first(), key);
        assert(more.drop_first() =~= keys.drop_first().push(key));
        assert(more[0] == keys[0]);
        if entries[key].waker.state == 1 && entries[key].waker.waker is Some {
            assert(super::closed::wakers_of(entries, more) =~= super::closed::wakers_of(
                entries,
                keys,
            ).push(entries[key].waker.waker->0));
        }
    }
}

/// A task that begins to wait stands at the end of its queue with what it waits for, and nothing
/// else changes.
pub proof fn law_waiting_task_goes_last<T>(chan: ChanView<T>, key: usize, entry: Entry<T>)
    requires
        entry.state is Sending || entry.state is Receiving,
    ensures
        ({
            let after = chan.after_enqueue(key, entry);
            &&& entry.state is Sending ==> after.senders == chan.senders.push(key)
                && after.receivers == chan.receivers
            &&& entry.state is Receiving ==> after.receivers == chan.receivers.push(key)
                && after.senders == chan.senders
            &&& after.waiters == chan.waiters.insert(key, entry)
            &&& after.items == chan.items
            &&& after.bound == chan.bound
            &&& after.closed == chan.closed
        }),
{
}

/// A waiter that leaves its queue leaves the others in their order, and nothing else changes: the
/// items, the bound, the other queue and all waiters are as they were. One that is alone, or not in
/// the queue, leaves everything as it was.
pub proof fn law_leaving_a_queue_changes_nothing_else<T>(
    chan: ChanView<T>,
    is_sender: bool,
    key: usize,
    n: int,
)
    requires
        chan.wf(),
    ensures
        ({
            let queue = if is_sender {
                chan.senders
            } else {
                chan.receivers
            };
            let after = chan.after_remove(is_sender, key);
            let rest = if is_sender {
                after.senders
            } else {
                after.receivers
            };
            &&& chan.can_leave(is_sender, key) == (queue.contains(key) && queue.len() > 1)
            &&& chan.is_queued(is_sender, key) == queue.contains(key)
            &&& 0 <= n < queue.len() && queue[n] == key && queue.len() > 1 ==> rest
                == queue.subrange(0, n) + queue.subrange(n + 1, queue.len() as int)
            &&& !queue.contains(key) || queue.len() <= 1 ==> rest == queue
            &&& is_sender ==> after.receivers == chan.receivers
            &&& !is_sender ==> after.senders == chan.senders
            &&& after.items == chan.items
            &&& after.bound == chan.bound
            &&& after.closed == chan.closed
            &&& after.waiters == chan.waiters
        }),
{
    let queue = if is_sender {
        chan.senders
    } else {
        chan.receivers
    };
    lemma_without(queue, key, n);
}

/// Without the key at position `n`.
proof fn lemma_without(queue: Seq<usize>, key: usize, n: int)
    requires
        queue.no_duplicates(),
    ensures
        0 <= n < queue.len() && queue[n] == key ==> {
            &&& queue.contains(key)
            &&& super::keys::without(queue, key) == queue.subrange(0, n) + queue.subrange(
                n + 1,
                queue.len() as int,
            )
        },
{
    if 0 <= n < queue.len() && queue[n] == key {
        assert(queue.contains(key));
        assert(queue.index_of(key) == n);
        assert(super::keys::without(queue, key) =~= queue.subrange(0, n) + queue.subrange(
            n + 1,
            queue.len() as int,
        ));
    }
}

/// A sender that gives up is gone, with its waiter, wherever it stood and though it was alone. The
/// others keep their order, and nothing else changes.
pub proof fn law_giving_up_changes_nothing_else<T>(chan: ChanView<T>, key: usize, n: int)
    requires
        chan.wf(),
    ensures
        ({
            let queue = chan.senders;
            let after = chan.after_cancel(key);
            &&& 0 <= n < queue.len() && queue[n] == key ==> after.senders == queue.subrange(0, n)
                + queue.subrange(n + 1, queue.len() as int)
            &&& !queue.contains(key) ==> after.senders == queue
            &&& !after.waiters.contains_key(key)
            &&& forall|k: usize|
                k != key ==> #[trigger] after.waiters.contains_key(k)
                    == chan.waiters.contains_key(k)
            &&& forall|k: usize|
                k != key && chan.waiters.contains_key(k) ==> #[trigger] after.waiters[k]
                    == chan.waiters[k]
            &&& after.receivers == chan.receivers
            &&& after.items == chan.items
            &&& after.bound == chan.bound
            &&& after.closed == chan.closed
        }),
{
    lemma_without(chan.senders, key, n);
}

/// Taking a waiter out changes nothing but that.
pub proof fn law_taking_a_waiter_changes_nothing_else<T>(chan: ChanView<T>, key: usize)
    ensures
        ({
            let after = chan.after_take(key);
            &&& !after.waiters.contains_key(key)
            &&& forall|k: usize|
                k != key ==> #[trigger] after.waiters.contains_key(k)
                    == chan.waiters.contains_key(k)
            &&& forall|k: usize|
                k != key && chan.waiters.contains_key(k) ==> #[trigger] after.waiters[k]
                    == chan.waiters[k]
            &&& after.senders == chan.senders
            &&& after.receivers == chan.receivers
            &&& after.items == chan.items
            &&& after.bound == chan.bound
            &&& after.closed == chan.closed
        }),
{
}

/// A task that is registered anew is woken by its new waker, or by the old one where both wake the
/// same task. Nothing else changes.
pub proof fn law_registering_anew_changes_only_the_waker<T>(
    chan: ChanView<T>,
    after: ChanView<T>,
    key: usize,
    waker: Waker,
)
    requires
        chan.waiters.contains_key(key),
        chan.waiters[key].waker.waker is Some,
        chan.registers(after, key, waker),
    ensures
        after.waiters.contains_key(key),
        after.waiters[key].state == chan.waiters[key].state,
        after.waiters[key].waker.state == chan.waiters[key].waker.state,
        after.waiters[key].waker.waker == Some(waker) || (after.waiters[key].waker.waker
            == chan.waiters[key].waker.waker && crate::waker::atomic::same_task(
            waker,
            chan.waiters[key].waker.waker->0,
        )),
        forall|k: usize| #[trigger]
            after.waiters.contains_key(k) == chan.waiters.contains_key(k),
        forall|k: usize|
            k != key && chan.waiters.contains_key(k) ==> #[trigger] after.waiters[k]
                == chan.waiters[k],
        after.senders == chan.senders,
        after.receivers == chan.receivers,
        after.items == chan.items,
        after.bound == chan.bound,
        after.closed == chan.closed,
{
}

} // verus!
