//! What holds of a channel over several operations.
use std::task::Waker;
use vstd::prelude::*;
use super::blocking::Blocking;
use super::error::{SendError, TryRecvError, TrySendError, TrySendTimeoutError};
use super::model::ChanView;
use super::waiter::{Entry, WaiterState};
use crate::waker::atomic::Poll;

verus! {

/// A channel never holds more than its bound, whatever is done to it, and the bound stays.
pub proof fn law_bound_is_kept<T>(chan: ChanView<T>, item: T)
    requires
        chan.wf(),
    ensures
        chan.bound is Some ==> {
            &&& chan.items.len() <= chan.bound->0
            &&& chan.after_send(item).items.len() <= chan.bound->0
            &&& chan.after_recv().items.len() <= chan.bound->0
            &&& chan.after_close().items.len() <= chan.bound->0
        },
        chan.after_send(item).bound == chan.bound,
        chan.after_recv().bound == chan.bound,
        chan.after_close().bound == chan.bound,
{
}

/// A channel without a bound refuses an item only once it is closed.
pub proof fn law_unbounded_is_never_full<T>(chan: ChanView<T>, item: T)
    requires
        chan.bound is None,
        !chan.closed,
    ensures
        chan.send_result(item) is Ok,
{
}

/// A bounded channel on which nobody waits to receive takes an item exactly where it holds fewer
/// than its bound.
pub proof fn law_bounded_is_full_at_its_bound<T>(chan: ChanView<T>, item: T)
    requires
        chan.wf(),
        chan.bound is Some,
        !chan.closed,
        chan.receivers.len() == 0,
    ensures
        chan.items.len() < chan.bound->0 ==> chan.send_result(item) is Ok,
        chan.items.len() == chan.bound->0 ==> chan.send_result(item) == Err::<
            Option<Waker>,
            TrySendError<T>,
        >(TrySendError::Full(item)),
{
}

/// An item that is refused comes back, and the channel is as it was.
pub proof fn law_refused_item_comes_back<T>(chan: ChanView<T>, item: T)
    requires
        chan.send_result(item) is Err,
    ensures
        chan.after_send(item) == chan,
        chan.send_result(item) == Err::<Option<Waker>, TrySendError<T>>(
            if chan.closed {
                TrySendError::Closed(item)
            } else {
                TrySendError::Full(item)
            },
        ),
{
}

/// An item that is sent while several tasks wait for one goes to the task that has waited longest, and
/// not into the buffer.
pub proof fn law_first_receiver_gets_the_item<T>(chan: ChanView<T>, item: T)
    requires
        chan.wf(),
        chan.receivers.len() > 1,
    ensures
        ({
            let first = chan.receivers[0];
            let after = chan.after_send(item);
            &&& chan.send_result(item) == Ok::<Option<Waker>, TrySendError<T>>(
                chan.waiters[first].waker.wakes(),
            )
            &&& after.waiters[first].state == WaiterState::Received(item)
            &&& after.waiters[first].waker.notified()
            &&& after.items == chan.items
            &&& after.receivers == chan.receivers.drop_first()
            &&& forall|k: usize| #[trigger]
                chan.waiters.contains_key(k) && k != first ==> after.waiters[k]
                    == chan.waiters[k]
        }),
{
    assert(chan.receivers.contains(chan.receivers[0]));
}

/// An item that is received while several tasks wait to send is that of the task that has waited
/// longest, which is told that it was sent. What the buffer holds stays.
pub proof fn law_first_sender_hands_over<T>(chan: ChanView<T>)
    requires
        chan.wf(),
        chan.senders.len() > 1,
    ensures
        ({
            let first = chan.senders[0];
            let after = chan.after_recv();
            &&& chan.waiters[first].state is Sending
            &&& chan.recv_result() == Ok::<(T, Option<Waker>), TryRecvError>(
                (chan.waiters[first].state->Sending_0, chan.waiters[first].waker.wakes()),
            )
            &&& after.waiters[first].state == WaiterState::<T>::Sent
            &&& after.waiters[first].waker.notified()
            &&& after.items == chan.items
            &&& after.senders == chan.senders.drop_first()
            &&& forall|k: usize| #[trigger]
                chan.waiters.contains_key(k) && k != first ==> after.waiters[k]
                    == chan.waiters[k]
        }),
{
    assert(chan.senders.contains(chan.senders[0]));
}

/// Nobody waits in both queues, and a task in a queue has not been woken.
pub proof fn law_waiting_tasks_are_in_one_queue<T>(chan: ChanView<T>, k: usize)
    requires
        chan.wf(),
    ensures
        !(chan.senders.contains(k) && chan.receivers.contains(k)),
        chan.senders.contains(k) || chan.receivers.contains(k) ==> !chan.waiters[k].waker.notified(),
{
}

/// Once a channel is closed it stays closed: items are refused and come back, nothing is received,
/// and closing it again changes nothing and wakes nobody.
pub proof fn law_closed_for_good<T>(chan: ChanView<T>, item: T)
    requires
        chan.wf(),
        chan.closed,
    ensures
        chan.send_result(item) == Err::<Option<Waker>, TrySendError<T>>(TrySendError::Closed(item)),
        chan.after_send(item) == chan,
        chan.recv_result() == Err::<(T, Option<Waker>), TryRecvError>(TryRecvError::Closed),
        chan.after_recv() == chan,
        chan.after_close() == chan,
        super::closed::closed_entries(chan.waiters, chan.senders + chan.receivers) == chan.waiters,
        super::closed::wakers_of(chan.waiters, chan.senders + chan.receivers) == Seq::<
            Waker,
        >::empty(),
{
    assert(chan.after_close() =~= chan);
    assert((chan.senders + chan.receivers) =~= Seq::empty());
    assert(super::closed::closed_entries(chan.waiters, chan.senders + chan.receivers)
        =~= chan.waiters);
}

/// When a channel is closed, every task that waits on it is woken; a sender gets its own item back,
/// as the result of its next poll, and a receiver learns that nothing comes.
pub proof fn law_closing_tells_everybody<T>(chan: ChanView<T>, k: usize)
    requires
        chan.wf(),
        chan.senders.contains(k) || chan.receivers.contains(k),
    ensures
        ({
            let told = super::closed::closed_entries(
                chan.waiters,
                chan.senders + chan.receivers,
            )[k];
            &&& told.waker.notified()
            &&& chan.senders.contains(k) ==> {
                &&& told.state == WaiterState::Closed(Some(chan.waiters[k].state->Sending_0))
                &&& super::future::sender_result(told.state) == Err::<(), SendError<T>>(
                    SendError::Closed(chan.waiters[k].state->Sending_0),
                )
            }
            &&& chan.receivers.contains(k) ==> told.state == WaiterState::<T>::Closed(None)
        }),
{
    super::keys::lemma_concat(chan.senders, chan.receivers);
}

/// A task that begins to wait for room and gives up leaves the channel as it was.
pub proof fn law_giving_up_undoes_waiting<T>(chan: ChanView<T>, key: usize, item: T, waker: Waker)
    requires
        chan.wf(),
        !chan.waiters.contains_key(key),
    ensures
        chan.after_enqueue(key, super::future::sender(item, waker)).after_cancel(key) == chan,
{
    super::blocking::lemma_undone(chan, key, super::future::sender(item, waker));
}

/// A task that has given up is in no queue, so that nobody receives its item; the others keep their
/// order.
pub proof fn law_cancelled_sender_is_gone<T>(chan: ChanView<T>, key: usize, j: usize)
    requires
        chan.wf(),
        chan.senders.contains(key),
    ensures
        ({
            let after = chan.after_cancel(key);
            &&& !after.senders.contains(key)
            &&& !after.waiters.contains_key(key)
            &&& after.senders.contains(j) == (chan.senders.contains(j) && j != key)
            &&& after.items == chan.items
            &&& after.receivers == chan.receivers
            &&& forall|a: int, b: int|
                0 <= a < b < after.senders.len() ==> chan.senders.index_of(
                    #[trigger] after.senders[a],
                ) < chan.senders.index_of(#[trigger] after.senders[b])
        }),
{
    super::keys::lemma_without(chan.senders, key);
    let after = super::keys::without(chan.senders, key);
    let n = chan.senders.index_of(key);
    assert forall|a: int| 0 <= a < after.len() implies chan.senders.index_of(#[trigger] after[a])
        == if a < n {
        a
    } else {
        a + 1
    } by {
        let at = if a < n {
            a
        } else {
            a + 1
        };
        assert(after[a] == chan.senders[at]);
        assert(chan.senders.contains(chan.senders[at]));
    }
}

/// A task that waits to send can be polled on whatever others do: its item has not been taken and
/// it has not been woken, or it has been woken with its item taken or given back.
pub proof fn law_sender_stays_a_sender<T>(chan: ChanView<T>, key: usize, item: T)
    requires
        chan.wf(),
        chan.waiters.contains_key(key),
        super::future::is_sender(chan.waiters[key]),
    ensures
        super::future::is_sender(chan.after_send(item).waiters[key]),
        super::future::is_sender(chan.after_recv().waiters[key]),
        super::future::is_sender(
            super::closed::closed_entries(chan.waiters, chan.senders + chan.receivers)[key],
        ),
{
    super::keys::lemma_concat(chan.senders, chan.receivers);
    if chan.receivers.len() > 0 {
        assert(chan.receivers.contains(chan.receivers[0]));
    }
    if chan.senders.len() > 0 {
        assert(chan.senders.contains(chan.senders[0]));
    }
}

/// A task that waits to send is not told anything before its item has been taken; once it has been,
/// the next poll says that it was sent.
pub proof fn law_sender_learns_that_its_item_was_taken<T>(
    chan: ChanView<T>,
    key: usize,
    after: ChanView<T>,
    waker: Waker,
    state: super::future::FutureOpState<T>,
    poll: Poll<Result<(), SendError<T>>>,
)
    requires
        chan.wf(),
        chan.senders.contains(key),
    ensures
        super::future::later_poll(chan, after, key, waker, state, poll) ==> poll is Pending,
        key == chan.senders[0] && chan.can_recv() && super::future::later_poll(
            chan.after_recv(),
            after,
            key,
            waker,
            state,
            poll,
        ) ==> poll == Poll::<Result<(), SendError<T>>>::Ready(Ok(())),
{
}

/// Sending an item for a time is sending it until that time from now: the result and the
/// channel are the same.
pub proof fn law_sending_for_is_sending_until<T>(
    before: ChanView<T>,
    after: ChanView<T>,
    item: T,
    waker: Waker,
    timeout: u64,
    now: u64,
    deadline: u64,
    outcome: Blocking<T, TrySendTimeoutError<T>>,
)
    requires
        deadline == now + timeout,
    ensures
        super::blocking::sent_for(before, after, item, waker, timeout, outcome)
            == super::blocking::sent_until(
            before,
            after,
            item,
            waker,
            deadline,
            now,
            outcome,
        ),
{
}

/// Whatever is done to a channel, it stays one.
pub proof fn law_operations_keep_the_channel<T>(
    chan: ChanView<T>,
    item: T,
    key: usize,
    entry: Entry<T>,
)
    requires
        chan.wf(),
    ensures
        chan.after_send(item).wf(),
        chan.after_recv().wf(),
        chan.after_close().wf(),
        chan.closed_down().wf(),
        !chan.closed && !chan.waiters.contains_key(key) && (entry.state is Sending
            || entry.state is Receiving) && entry.waker.prepared() ==> chan.after_enqueue(
            key,
            entry,
        ).wf(),
        chan.after_remove(true, key).wf(),
        chan.after_remove(false, key).wf(),
        !chan.receivers.contains(key) ==> chan.after_cancel(key).wf(),
        chan.can_leave(false, key) ==> chan.after_remove(false, key).after_take(key).wf(),
        !chan.senders.contains(key) && !chan.receivers.contains(key) ==> chan.after_take(key).wf(),
{
    if chan.receivers.len() > 0 {
        super::keys::lemma_drop_first(chan.receivers);
        let after = chan.after_send(item);
        assert forall|k: usize| #[trigger] after.receivers.contains(k) implies after.waiters[k]
            == chan.waiters[k] && chan.receivers.contains(k) by {}
        assert forall|k: usize| #[trigger] after.senders.contains(k) implies after.waiters[k]
            == chan.waiters[k] by {}
    }
    if chan.senders.len() > 0 {
        super::keys::lemma_drop_first(chan.senders);
        let after = chan.after_recv();
        assert forall|k: usize| #[trigger] after.senders.contains(k) implies after.waiters[k]
            == chan.waiters[k] && chan.senders.contains(k) by {}
        assert forall|k: usize| #[trigger] after.receivers.contains(k) implies after.waiters[k]
            == chan.waiters[k] by {}
    }
    assert forall|k: usize| !(#[trigger] chan.after_close().senders.contains(k)) by {}
    if !chan.closed && !chan.waiters.contains_key(key) {
        super::keys::lemma_push(chan.senders, key);
        super::keys::lemma_push(chan.receivers, key);
    }
    if chan.senders.contains(key) {
        super::keys::lemma_without(chan.senders, key);
    }
    if chan.receivers.contains(key) {
        super::keys::lemma_without(chan.receivers, key);
    }
}

} // verus!
