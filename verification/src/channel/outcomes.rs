//! What a task or thread that sends is told, by what it finds.
use std::task::Waker;
use vstd::prelude::*;
use super::blocking::{Blocking, Round};
use super::error::{SendError, TrySendTimeoutError};
use super::future::{FutureOpState, SendFuture};
use super::model::ChanView;
use super::waiter::{Entry, WaiterState};
use crate::waker::atomic::Poll;

verus! {

/// Who can be polled as a sender: a task whose item has not been taken and that has not been woken,
/// or one that has been woken with its item taken or given back.
pub proof fn law_who_is_a_sender<T>(entry: Entry<T>)
    ensures
        super::future::is_sender(entry) == {
            ||| entry.state is Sending && entry.waker.state == 1 && entry.waker.waker is Some
            ||| entry.state is Sent && entry.waker.state == 3
            ||| (entry.state matches WaiterState::Closed(back) && back is Some)
                && entry.waker.state == 3
        },
{
}

/// A future can be polled where it has its item still, or where it waits on this channel; not once
/// it is over.
pub proof fn law_which_futures_fit<T>(future: SendFuture<T>, chan: ChanView<T>)
    ensures
        future.fits(chan) == match future.0.state {
            FutureOpState::TryOp(item) => item is Some,
            FutureOpState::Waiting(key) => chan.waiters.contains_key(key)
                && super::future::is_sender(chan.waiters[key]),
            FutureOpState::Completed => false,
        },
{
}

/// The waiter of a task that sends holds its item and its waker, and has not been woken.
pub proof fn law_waiter_of_a_sender<T>(item: T, waker: Waker)
    ensures
        ({
            let entry = super::future::sender(item, waker);
            &&& entry.state == WaiterState::Sending(item)
            &&& entry.waker.state == 1
            &&& entry.waker.waker == Some(waker)
        }),
{
}

/// The first poll of a future. On a closed channel it fails and gives the item back, and on no other
/// one does it fail. Where a task waits to receive or there is room it is over at once. On an open
/// channel that is full, whatever its bound, the task waits at the end of the queue.
pub proof fn law_first_poll<T>(
    before: ChanView<T>,
    after: ChanView<T>,
    item: T,
    waker: Waker,
    state: FutureOpState<T>,
    poll: Poll<Result<(), SendError<T>>>,
)
    requires
        super::future::first_poll(before, after, item, waker, state, poll),
    ensures
        poll matches Poll::Ready(Err(SendError::Closed(back))) ==> before.closed && back == item,
        before.closed ==> {
            &&& poll matches Poll::Ready(Err(SendError::Closed(back))) && back == item
            &&& after == before
        },
        !before.closed && (before.receivers.len() > 0 || before.bound != Some(before.items.len()))
            ==> {
            &&& poll matches Poll::Ready(Ok(()))
            &&& after == before.after_send(item)
        },
        !before.closed && before.receivers.len() == 0 && before.bound == Some(before.items.len())
            ==> {
            &&& poll is Pending
            &&& state matches FutureOpState::Waiting(key) && {
                &&& !before.waiters.contains_key(key)
                &&& after.senders == before.senders.push(key)
                &&& after.waiters == before.waiters.insert(key, after.waiters[key])
                &&& after.waiters[key].state == WaiterState::Sending(item)
                &&& after.waiters[key].waker.state == 1
                &&& after.waiters[key].waker.waker == Some(waker)
                &&& after.items == before.items
                &&& after.bound == before.bound
                &&& !after.closed
                &&& after.receivers == before.receivers
            }
        },
        !(poll is Pending) ==> state is Completed,
{
    assert(state is Waiting ==> after.waiters =~= before.waiters.insert(
        state->Waiting_0,
        after.waiters[state->Waiting_0],
    ) || !(poll is Pending));
}

/// A later poll of a task that waits. As long as its item has not been taken it waits on; once it has
/// been, the send is over; and where the channel was closed meanwhile, the item comes back. A task
/// that is told is no longer there, and nothing else changes.
pub proof fn law_later_poll<T>(
    before: ChanView<T>,
    after: ChanView<T>,
    key: usize,
    waker: Waker,
    state: FutureOpState<T>,
    poll: Poll<Result<(), SendError<T>>>,
)
    requires
        before.waiters.contains_key(key),
        super::future::is_sender(before.waiters[key]),
        super::future::later_poll(before, after, key, waker, state, poll),
    ensures
        before.waiters[key].state is Sending ==> {
            &&& poll is Pending
            &&& state matches FutureOpState::Waiting(same) && same == key
            &&& before.registers(after, key, waker)
        },
        before.waiters[key].state is Sent ==> poll matches Poll::Ready(Ok(())),
        before.waiters[key].state matches WaiterState::Closed(back) ==> (poll matches Poll::Ready(
            Err(SendError::Closed(item)),
        ) && back == Some(item)),
        !(before.waiters[key].state is Sending) ==> state is Completed && after
            == before.after_take(key),
{
}

/// A sender that waits when the channel is closed learns it from its next poll, and gets its own item
/// back.
pub proof fn law_sender_is_told_of_closing<T>(
    chan: ChanView<T>,
    after: ChanView<T>,
    key: usize,
    waker: Waker,
    state: FutureOpState<T>,
    poll: Poll<Result<(), SendError<T>>>,
)
    requires
        chan.wf(),
        chan.senders.contains(key),
        super::future::later_poll(chan.closed_down(), after, key, waker, state, poll),
    ensures
        poll matches Poll::Ready(Err(SendError::Closed(item))) && chan.waiters[key].state
            == WaiterState::Sending(item),
{
    super::effects::law_closing_gives_items_back(chan);
}

/// Whether the time is up: there is a deadline, and it has come.
pub proof fn law_when_time_is_up(deadline: Option<u64>, now: u64)
    ensures
        super::blocking::expired(deadline, now) == match deadline {
            Some(deadline) => now >= deadline,
            None => false,
        },
{
}

/// The first round of a blocking send. It fails as closed only on a closed channel. On an open one
/// that is full it is timed out where the time is up, with the item given back and nothing changed,
/// and else the thread parks and its task waits at the end of the queue.
pub proof fn law_first_round<T>(
    before: ChanView<T>,
    after: ChanView<T>,
    item: T,
    waker: Waker,
    is_expired: bool,
    state: FutureOpState<T>,
    round: Round<T>,
)
    requires
        super::blocking::first_round(before, after, item, waker, is_expired, state, round),
    ensures
        before.closed ==> {
            &&& round matches Round::Ready(Err(SendError::Closed(back))) && back == item
            &&& after == before
        },
        !before.closed && (before.receivers.len() > 0 || before.bound != Some(before.items.len()))
            ==> {
            &&& round matches Round::Ready(Ok(()))
            &&& after == before.after_send(item)
        },
        !before.closed && before.receivers.len() == 0 && before.bound == Some(before.items.len())
            && is_expired ==> {
            &&& round matches Round::TimedOut(WaiterState::Sending(back)) && back == item
            &&& after == before
        },
        !before.closed && before.receivers.len() == 0 && before.bound == Some(before.items.len())
            && !is_expired ==> {
            &&& round is Parked
            &&& state matches FutureOpState::Waiting(key) && !before.waiters.contains_key(key)
                && after == before.after_enqueue(key, super::future::sender(item, waker))
        },
        !(round is Parked) ==> state is Completed,
{
}

/// A later round of a blocking send. A task whose item has been taken, or given back, is told so
/// though the time is up. One whose item has not been taken gives up where the time is up, and gets
/// its item back; else the thread parks again.
pub proof fn law_later_round<T>(
    before: ChanView<T>,
    after: ChanView<T>,
    key: usize,
    waker: Waker,
    is_expired: bool,
    state: FutureOpState<T>,
    round: Round<T>,
)
    requires
        before.waiters.contains_key(key),
        super::future::is_sender(before.waiters[key]),
        super::blocking::later_round(before, after, key, waker, is_expired, state, round),
    ensures
        before.waiters[key].state is Sent ==> round matches Round::Ready(Ok(())),
        before.waiters[key].state matches WaiterState::Closed(back) ==> (round
            matches Round::Ready(Err(SendError::Closed(item))) && back == Some(item)),
        !(before.waiters[key].state is Sending) ==> after == before.after_take(key),
        before.waiters[key].state is Sending && is_expired ==> {
            &&& round matches Round::TimedOut(left) && left == before.waiters[key].state
            &&& after == before.after_cancel(key)
        },
        before.waiters[key].state is Sending && !is_expired ==> {
            &&& round is Parked
            &&& state matches FutureOpState::Waiting(same) && same == key
            &&& before.registers(after, key, waker)
        },
        !(round is Parked) ==> state is Completed,
{
}

/// What a thread is told that begins to send without a time limit. It is told that the channel is
/// closed only where it is, and then gets the item back; it parks exactly where an open channel is
/// full.
pub proof fn law_send<T>(
    before: ChanView<T>,
    after: ChanView<T>,
    item: T,
    waker: Waker,
    outcome: Blocking<T, SendError<T>>,
)
    requires
        super::blocking::send_begun(before, after, item, waker, outcome),
    ensures
        before.closed ==> {
            &&& outcome matches Blocking::Done(Err(SendError::Closed(back))) && back == item
            &&& after == before
        },
        !before.closed && (before.receivers.len() > 0 || before.bound != Some(before.items.len()))
            ==> {
            &&& outcome matches Blocking::Done(Ok(()))
            &&& after == before.after_send(item)
        },
        !before.closed && before.receivers.len() == 0 && before.bound == Some(before.items.len())
            ==> {
            &&& outcome matches Blocking::Parked(future) && (future.0.state
                matches FutureOpState::Waiting(key) && !before.waiters.contains_key(key) && after
                == before.after_enqueue(key, super::future::sender(item, waker)))
        },
        outcome is Done && outcome->Done_0 is Err ==> before.closed,
{
}

/// What a thread is told that goes on with sending without a time limit.
pub proof fn law_send_goes_on<T>(
    before: ChanView<T>,
    after: ChanView<T>,
    key: usize,
    waker: Waker,
    outcome: Blocking<T, SendError<T>>,
)
    requires
        before.waiters.contains_key(key),
        super::future::is_sender(before.waiters[key]),
        super::blocking::send_resumed(before, after, key, waker, outcome),
    ensures
        before.waiters[key].state is Sent ==> outcome matches Blocking::Done(Ok(())),
        before.waiters[key].state matches WaiterState::Closed(back) ==> (outcome
            matches Blocking::Done(Err(SendError::Closed(item))) && back == Some(item)),
        !(before.waiters[key].state is Sending) ==> after == before.after_take(key),
        before.waiters[key].state is Sending ==> {
            &&& outcome matches Blocking::Parked(future) && (future.0.state
                matches FutureOpState::Waiting(same) && same == key)
            &&& before.registers(after, key, waker)
        },
{
}

/// What a thread is told that begins at `now` to send until a deadline. It is timed out only where
/// the deadline has come and an open channel is full, with the item given back and nothing changed;
/// it is told that the channel is closed only where it is; and where the deadline has not come, it
/// parks on an open channel that is full.
pub proof fn law_send_until<T>(
    before: ChanView<T>,
    after: ChanView<T>,
    item: T,
    waker: Waker,
    deadline: u64,
    now: u64,
    outcome: Blocking<T, TrySendTimeoutError<T>>,
)
    requires
        super::blocking::sent_until(before, after, item, waker, deadline, now, outcome),
    ensures
        outcome matches Blocking::Done(Err(TrySendTimeoutError::TimedOut(back))) ==> now
            >= deadline && back == item && !before.closed,
        outcome matches Blocking::Done(Err(TrySendTimeoutError::Closed(back))) ==> before.closed
            && back == item,
        outcome is Parked ==> now < deadline,
        before.closed ==> {
            &&& outcome matches Blocking::Done(Err(TrySendTimeoutError::Closed(_)))
            &&& after == before
        },
        !before.closed && (before.receivers.len() > 0 || before.bound != Some(before.items.len()))
            ==> {
            &&& outcome matches Blocking::Done(Ok(()))
            &&& after == before.after_send(item)
        },
        !before.closed && before.receivers.len() == 0 && before.bound == Some(before.items.len())
            && now >= deadline ==> {
            &&& outcome matches Blocking::Done(Err(TrySendTimeoutError::TimedOut(_)))
            &&& after == before
        },
        !before.closed && before.receivers.len() == 0 && before.bound == Some(before.items.len())
            && now < deadline ==> {
            &&& outcome matches Blocking::Parked(future) && (future.0.state
                matches FutureOpState::Waiting(key) && !before.waiters.contains_key(key) && after
                == before.after_enqueue(key, super::future::sender(item, waker)))
        },
{
}

/// What a thread is told that begins to send for a time. It is timed out at once only where that time
/// is none; with any other it parks on an open channel that is full.
pub proof fn law_send_for<T>(
    before: ChanView<T>,
    after: ChanView<T>,
    item: T,
    waker: Waker,
    timeout: u64,
    outcome: Blocking<T, TrySendTimeoutError<T>>,
)
    requires
        super::blocking::sent_for(before, after, item, waker, timeout, outcome),
    ensures
        outcome matches Blocking::Done(Err(TrySendTimeoutError::TimedOut(back))) ==> timeout == 0
            && back == item && !before.closed,
        outcome matches Blocking::Done(Err(TrySendTimeoutError::Closed(back))) ==> before.closed
            && back == item,
        outcome is Parked ==> timeout > 0,
        before.closed ==> {
            &&& outcome matches Blocking::Done(Err(TrySendTimeoutError::Closed(_)))
            &&& after == before
        },
        !before.closed && (before.receivers.len() > 0 || before.bound != Some(before.items.len()))
            ==> {
            &&& outcome matches Blocking::Done(Ok(()))
            &&& after == before.after_send(item)
        },
        !before.closed && before.receivers.len() == 0 && before.bound == Some(before.items.len())
            && timeout == 0 ==> {
            &&& outcome matches Blocking::Done(Err(TrySendTimeoutError::TimedOut(_)))
            &&& after == before
        },
        !before.closed && before.receivers.len() == 0 && before.bound == Some(before.items.len())
            && timeout > 0 ==> {
            &&& outcome matches Blocking::Parked(future) && (future.0.state
                matches FutureOpState::Waiting(key) && !before.waiters.contains_key(key) && after
                == before.after_enqueue(key, super::future::sender(item, waker)))
        },
{
}

/// What a thread is told that goes on with sending with a time limit. An item that has been taken was
/// sent, and one that was given back is told as closed, though the time is up; else it is timed out
/// exactly where the time is up, gets its own item back, and no longer waits.
pub proof fn law_timed_send_goes_on<T>(
    before: ChanView<T>,
    after: ChanView<T>,
    key: usize,
    waker: Waker,
    is_expired: bool,
    outcome: Blocking<T, TrySendTimeoutError<T>>,
)
    requires
        before.waiters.contains_key(key),
        super::future::is_sender(before.waiters[key]),
        super::blocking::timed_resumed(before, after, key, waker, is_expired, outcome),
    ensures
        before.waiters[key].state is Sent ==> outcome matches Blocking::Done(Ok(())),
        before.waiters[key].state matches WaiterState::Closed(back) ==> (outcome
            matches Blocking::Done(Err(TrySendTimeoutError::Closed(item))) && back == Some(item)),
        !(before.waiters[key].state is Sending) ==> after == before.after_take(key),
        before.waiters[key].state is Sending && is_expired ==> {
            &&& outcome matches Blocking::Done(Err(TrySendTimeoutError::TimedOut(item)))
                && before.waiters[key].state == WaiterState::Sending(item)
            &&& after == before.after_cancel(key)
        },
        before.waiters[key].state is Sending && !is_expired ==> {
            &&& outcome matches Blocking::Parked(future) && (future.0.state
                matches FutureOpState::Waiting(same) && same == key)
            &&& before.registers(after, key, waker)
        },
{
}

/// Why an item was not sent in time: the channel was closed and the item given back, or the item is
/// still with the task.
pub proof fn law_why_not_in_time<T>(item: T)
    ensures
        super::blocking::timeout_error(WaiterState::Closed(Some(item)))
            == TrySendTimeoutError::Closed(item),
        super::blocking::timeout_error(WaiterState::Sending(item))
            == TrySendTimeoutError::TimedOut(item),
{
}

} // verus!
