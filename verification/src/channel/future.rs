//! Sending that waits for room.
use std::task::Waker;
use vstd::prelude::*;
use super::chan::Chan;
use super::channel::Channel;
use super::error::{SendError, TrySendError};
use super::model::ChanView;
use super::waiter::{Entry, WaiterState};
use crate::waker::atomic::{AtomicWaker, Poll};

verus! {

/// How far an operation that may wait has come.
pub enum FutureOpState<T> {
    /// Has not been tried yet.
    TryOp(Option<T>),
    /// Waits under this key.
    Waiting(usize),
    /// Is over.
    Completed,
}

/// An operation on a channel that may wait.
pub struct FutureOp<T> {
    pub state: FutureOpState<T>,
}

impl<T> FutureOp<T> {
    /// An operation that has not been tried yet.
    pub fn new(item: Option<T>) -> (op: Self)
        ensures
            op.state == FutureOpState::TryOp(item),
    {
        Self { state: FutureOpState::TryOp(item) }
    }
}

/// Gives access to the operation behind a future.
pub trait AsFutureOp<T> {
    spec fn op(&self) -> FutureOp<T>;

    fn as_future_op(&self) -> (op: &FutureOp<T>)
        ensures
            *op == self.op(),
    ;
}

/// Sending an item, which waits while there is no room for it.
pub struct SendFuture<T>(pub FutureOp<T>);

impl<T> AsFutureOp<T> for SendFuture<T> {
    open spec fn op(&self) -> FutureOp<T> {
        self.0
    }

    fn as_future_op(&self) -> (op: &FutureOp<T>) {
        &self.0
    }
}

/// A waiter that sends: nobody has taken its item yet, or its task has been woken and its item has
/// been taken, or given back.
pub open spec fn is_sender<T>(entry: Entry<T>) -> bool {
    ||| entry.state is Sending && entry.waker.waiting()
    ||| entry.waker.notified() && (entry.state is Sent || (entry.state is Closed
        && entry.state->Closed_0 is Some))
}

/// The waiter of a task that sends `item` and is woken by `waker`.
pub open spec fn sender<T>(item: T, waker: Waker) -> Entry<T> {
    Entry {
        state: WaiterState::Sending(item),
        waker: AtomicWaker { state: crate::waker::machine::WAKER_WAITING, waker: Some(waker) },
    }
}

/// What a sender is told that has been woken.
pub open spec fn sender_result<T>(state: WaiterState<T>) -> Result<(), SendError<T>> {
    match state {
        WaiterState::Closed(Some(item)) => Err(SendError::Closed(item)),
        _ => Ok(()),
    }
}

/// What the first try to send an item comes to. Where a receiver gets it, its waker is dropped, and
/// where there is no room, the task waits under the key that `state` holds.
pub open spec fn first_poll<T>(
    before: ChanView<T>,
    after: ChanView<T>,
    item: T,
    waker: Waker,
    state: FutureOpState<T>,
    poll: Poll<Result<(), SendError<T>>>,
) -> bool {
    match before.send_result(item) {
        Ok(_) => {
            &&& after == before.after_send(item)
            &&& state is Completed
            &&& poll == Poll::<Result<(), SendError<T>>>::Ready(Ok(()))
        },
        Err(TrySendError::Closed(_)) => {
            &&& after == before
            &&& state is Completed
            &&& poll == Poll::<Result<(), SendError<T>>>::Ready(Err(SendError::Closed(item)))
        },
        Err(TrySendError::Full(_)) => {
            &&& state is Waiting
            &&& !before.waiters.contains_key(state->Waiting_0)
            &&& after == before.after_enqueue(state->Waiting_0, sender(item, waker))
            &&& poll is Pending
        },
    }
}

/// What a later poll comes to of a task that waits under `key`.
pub open spec fn later_poll<T>(
    before: ChanView<T>,
    after: ChanView<T>,
    key: usize,
    waker: Waker,
    state: FutureOpState<T>,
    poll: Poll<Result<(), SendError<T>>>,
) -> bool {
    if before.waiters[key].waker.notified() {
        &&& after == before.after_take(key)
        &&& state is Completed
        &&& poll == Poll::Ready(sender_result(before.waiters[key].state))
    } else {
        &&& before.registers(after, key, waker)
        &&& state == FutureOpState::<T>::Waiting(key)
        &&& poll is Pending
    }
}

impl<T> Chan<T> {
    /// Sends an item, or lets the task wait that sends it.
    pub(crate) fn send_or_wait(&mut self, item: T, waker: Waker) -> (done: (
        FutureOpState<T>,
        Poll<Result<(), SendError<T>>>,
    ))
        requires
            old(self).wf(),
            old(self)@.can_send(),
        ensures
            final(self).wf(),
            first_poll(old(self)@, final(self)@, item, waker, done.0, done.1),
    {
        match self.try_send(item) {
            Ok(_) => (FutureOpState::Completed, Poll::Ready(Ok(()))),
            Err(TrySendError::Closed(item)) => (
                FutureOpState::Completed,
                Poll::Ready(Err(SendError::Closed(item))),
            ),
            Err(TrySendError::Full(item)) => {
                let key: usize = self.enqueue(WaiterState::Sending(item), waker);
                (FutureOpState::Waiting(key), Poll::Pending)
            },
        }
    }

    /// Asks what has become of a task that waits to send.
    pub(crate) fn poll_sender(&mut self, key: usize, waker: Waker) -> (done: (
        FutureOpState<T>,
        Poll<Result<(), SendError<T>>>,
    ))
        requires
            old(self).wf(),
            old(self)@.waiters.contains_key(key),
            is_sender(old(self)@.waiters[key]),
        ensures
            final(self).wf(),
            later_poll(old(self)@, final(self)@, key, waker, done.0, done.1),
    {
        match self.poll_waiter(key, waker) {
            Poll::Pending => (FutureOpState::Waiting(key), Poll::Pending),
            Poll::Ready(_) => {
                let result: Result<(), SendError<T>> = match self.take_waiter(key) {
                    WaiterState::Closed(Some(item)) => Err(SendError::Closed(item)),
                    _ => Ok(()),
                };
                (FutureOpState::Completed, Poll::Ready(result))
            },
        }
    }
}

impl<T> SendFuture<T> {
    /// Whether the future can be polled on a channel: it is not over, and where it waits, it does
    /// so on this channel.
    pub open spec fn fits(self, chan: ChanView<T>) -> bool {
        match self.0.state {
            FutureOpState::TryOp(item) => item is Some,
            FutureOpState::Waiting(key) => chan.waiters.contains_key(key) && is_sender(
                chan.waiters[key],
            ),
            FutureOpState::Completed => false,
        }
    }

    /// Tries to send the item, or asks whether it has been sent. Where a receiver gets the item at
    /// once, its waker is dropped.
    pub fn poll(&mut self, channel: &mut Channel<T>, waker: Waker) -> (poll: Poll<
        Result<(), SendError<T>>,
    >)
        requires
            old(channel).wf(),
            old(self).0.state is TryOp ==> old(channel)@.can_send(),
            old(self).fits(old(channel)@),
        ensures
            final(channel).wf(),
            match old(self).0.state {
                FutureOpState::TryOp(item) => first_poll(
                    old(channel)@,
                    final(channel)@,
                    item->0,
                    waker,
                    final(self).0.state,
                    poll,
                ),
                FutureOpState::Waiting(key) => later_poll(
                    old(channel)@,
                    final(channel)@,
                    key,
                    waker,
                    final(self).0.state,
                    poll,
                ),
                FutureOpState::Completed => true,
            },
            poll is Pending ==> final(self).fits(final(channel)@),
            old(self).0.state is TryOp && poll is Ready && poll->Ready_0 is Err ==> old(
                channel,
            )@.closed,
            old(self).0.state is TryOp && !old(channel)@.closed && old(channel)@.receivers.len() == 0
                && old(channel)@.bound == Some(old(channel)@.items.len()) ==> {
                &&& poll is Pending
                &&& final(channel)@.senders == old(channel)@.senders.push(
                    final(self).0.state->Waiting_0,
                )
            },
    {
        let mut state: FutureOpState<T> = FutureOpState::Completed;
        std::mem::swap(&mut self.0.state, &mut state);
        let (state, poll) = match state {
            FutureOpState::TryOp(Some(item)) => channel.send_or_wait(item, waker),
            FutureOpState::Waiting(key) => channel.poll_sender(key, waker),
            _ => (FutureOpState::Completed, Poll::Pending),
        };
        self.0.state = state;
        poll
    }

    /// Takes the task that waits out of the queue of senders, unless it is alone in it. Says whether
    /// it did.
    pub fn try_cancel(&self, channel: &mut Channel<T>) -> (cancelled: bool)
        requires
            old(channel).wf(),
            self.0.state is Waiting,
            self.fits(old(channel)@),
        ensures
            final(channel).wf(),
            cancelled == old(channel)@.can_leave(true, self.0.state->Waiting_0),
            final(channel)@ == old(channel)@.after_remove(true, self.0.state->Waiting_0),
            final(channel)@.items == old(channel)@.items,
            final(channel)@.bound == old(channel)@.bound,
            final(channel)@.closed == old(channel)@.closed,
            final(channel)@.receivers == old(channel)@.receivers,
            final(channel)@.waiters == old(channel)@.waiters,
    {
        match self.0.state {
            FutureOpState::Waiting(key) => channel.remove_sender(key),
            _ => false,
        }
    }

    /// Gives the future up. Where the task waits, it leaves its queue, though it is alone in it.
    pub fn drop(self, channel: &mut Channel<T>)
        requires
            old(channel).wf(),
            self.0.state is Waiting ==> self.fits(old(channel)@),
        ensures
            final(channel).wf(),
            final(channel)@ == match self.0.state {
                FutureOpState::Waiting(key) => old(channel)@.after_cancel(key),
                _ => old(channel)@,
            },
    {
        match self.0.state {
            FutureOpState::Waiting(key) => {
                let _state: WaiterState<T> = channel.cancel(key);
            },
            _ => {},
        }
    }
}

} // verus!
