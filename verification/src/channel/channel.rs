//! A channel behind its lock.
use std::task::Waker;
use vstd::prelude::*;
use super::chan::Chan;
use super::error::{SendError, TrySendError};
use super::future::{FutureOp, FutureOpState, SendFuture};
use super::model::ChanView;
use super::waiter::WaiterState;
use crate::lock::value::Lock;
use crate::waker::atomic::Poll;

verus! {

/// A channel through which items are sent. As long as no sender has to wait, they are received in
/// the order in which they were sent.
pub struct Channel<T>(Lock<Chan<T>>);

impl<T> View for Channel<T> {
    type V = ChanView<T>;

    closed spec fn view(&self) -> ChanView<T> {
        self.0.value@
    }
}

impl<T> Channel<T> {
    /// The lock is free, and what it guards is a channel.
    pub closed spec fn wf(&self) -> bool {
        &&& self.0.state == crate::lock::word::UNLOCKED
        &&& self.0.value.wf()
    }

    /// Whatever channel it is, its parts fit together.
    pub proof fn lemma_wf(&self)
        requires
            self.wf(),
        ensures
            self@.wf(),
    {
    }

    /// A channel that holds any number of items.
    pub fn unbounded() -> (channel: Self)
        ensures
            channel.wf(),
            channel@ == ChanView::<T>::empty(None),
    {
        Self::with_capacity(None)
    }

    /// A channel that holds at most so many items.
    pub fn bounded(capacity: usize) -> (channel: Self)
        ensures
            channel.wf(),
            channel@ == ChanView::<T>::empty(Some(super::chan::bound_of(capacity))),
            capacity <= usize::MAX / 2 ==> channel@.bound == Some(capacity as nat),
            channel@.items.len() == 0 && !channel@.closed,
    {
        Self::with_capacity(Some(capacity))
    }

    fn with_capacity(capacity: Option<usize>) -> (channel: Self)
        ensures
            channel.wf(),
            channel@ == ChanView::<T>::empty(
                match capacity {
                    Some(capacity) => Some(super::chan::bound_of(capacity)),
                    None => None,
                },
            ),
    {
        Self(
            Lock::new(
                match capacity {
                    Some(capacity) => Chan::bounded(capacity),
                    None => Chan::unbounded(),
                },
            ),
        )
    }

    /// Whether the channel is closed.
    pub fn is_closed(&self) -> (yes: bool)
        ensures
            yes == self@.closed,
    {
        self.0.value.is_closed()
    }

    /// Closes the channel. The items that it holds are dropped, those who wait are told, and their
    /// wakers are handed out, senders first. The caller is to wake them.
    pub fn close(&mut self) -> (wakers: Vec<Waker>)
        requires
            old(self).wf(),
        ensures
            final(self).wf(),
            final(self)@ == old(self)@.closed_down(),
            final(self)@.closed && final(self)@.items.len() == 0,
            forall|k: usize| #[trigger]
                old(self)@.senders.contains(k) ==> {
                    &&& final(self)@.waiters[k].state == WaiterState::Closed(
                        Some(old(self)@.waiters[k].state->Sending_0),
                    )
                    &&& final(self)@.waiters[k].waker.notified()
                },
            forall|k: usize| #[trigger]
                old(self)@.receivers.contains(k) ==> {
                    &&& final(self)@.waiters[k].state == WaiterState::<T>::Closed(None)
                    &&& final(self)@.waiters[k].waker.notified()
                },
            forall|k: usize| #[trigger]
                old(self)@.waiters.contains_key(k) && !old(self)@.senders.contains(k) && !old(
                    self,
                )@.receivers.contains(k) ==> final(self)@.waiters[k] == old(self)@.waiters[k],
            wakers@ == super::closed::wakers_of(
                old(self)@.waiters,
                old(self)@.senders + old(self)@.receivers,
            ),
    {
        let close = |chan: &mut Chan<T>| -> (wakers: Vec<Waker>)
            requires
                chan.wf(),
            ensures
                final(chan).wf(),
                final(chan)@ == old(chan)@.closed_down(),
                wakers@ == super::closed::wakers_of(
                    old(chan)@.waiters,
                    old(chan)@.senders + old(chan)@.receivers,
                ),
            {
                let ghost before = chan@;
                let waiting = chan.close();
                proof {
                    super::keys::lemma_concat(before.senders, before.receivers);
                }
                chan.tell_closed(waiting)
            };
        proof {
            super::effects::law_closing_gives_items_back(self@);
        }
        let (result, _released) = self.0.with(close);
        result
    }

    /// Whether an item can be sent at once: the queue of receivers can give up its first one, and
    /// the buffer can be made larger.
    pub fn can_send(&self) -> (yes: bool)
        requires
            self.wf(),
        ensures
            yes == self@.can_send(),
    {
        self.0.value.can_send()
    }

    /// Sends an item at once: to the first receiver that waits, or else into the buffer. The
    /// caller is to wake the waker that is handed out.
    pub fn try_send(&mut self, item: T) -> (result: Result<Option<Waker>, TrySendError<T>>)
        requires
            old(self).wf(),
            old(self)@.can_send(),
        ensures
            final(self).wf(),
            result == old(self)@.send_result(item),
            final(self)@ == old(self)@.after_send(item),
    {
        let send = |chan: &mut Chan<T>| -> (result: Result<Option<Waker>, TrySendError<T>>)
            requires
                chan.wf(),
                chan@.can_send(),
            ensures
                final(chan).wf(),
                result == old(chan)@.send_result(item),
                final(chan)@ == old(chan)@.after_send(item),
            { chan.try_send(item) };
        let (result, _released) = self.0.with(send);
        result
    }

    /// Sends an item, waiting for room. Nothing happens until the future is polled.
    pub fn send_async(&self, item: T) -> (future: SendFuture<T>)
        ensures
            future.0.state == FutureOpState::TryOp(Some(item)),
            future.fits(self@),
    {
        SendFuture(FutureOp::new(Some(item)))
    }

    /// Sends an item, or lets the task wait that sends it.
    pub(crate) fn send_or_wait(&mut self, item: T, waker: Waker) -> (done: (
        FutureOpState<T>,
        Poll<Result<(), SendError<T>>>,
    ))
        requires
            old(self).wf(),
            old(self)@.can_send(),
        ensures
            final(self).wf(),
            super::future::first_poll(
                old(self)@,
                final(self)@,
                item,
                waker,
                done.0,
                done.1,
            ),
    {
        let send = |chan: &mut Chan<T>| -> (done: (
            FutureOpState<T>,
            Poll<Result<(), SendError<T>>>,
        ))
            requires
                chan.wf(),
                chan@.can_send(),
            ensures
                final(chan).wf(),
                super::future::first_poll(
                    old(chan)@,
                    final(chan)@,
                    item,
                    waker,
                    done.0,
                    done.1,
                ),
            { chan.send_or_wait(item, waker) };
        let (result, _released) = self.0.with(send);
        result
    }

    /// Asks what has become of a task that waits to send.
    pub(crate) fn poll_sender(&mut self, key: usize, waker: Waker) -> (done: (
        FutureOpState<T>,
        Poll<Result<(), SendError<T>>>,
    ))
        requires
            old(self).wf(),
            old(self)@.waiters.contains_key(key),
            super::future::is_sender(old(self)@.waiters[key]),
        ensures
            final(self).wf(),
            super::future::later_poll(
                old(self)@,
                final(self)@,
                key,
                waker,
                done.0,
                done.1,
            ),
    {
        let ask = |chan: &mut Chan<T>| -> (done: (
            FutureOpState<T>,
            Poll<Result<(), SendError<T>>>,
        ))
            requires
                chan.wf(),
                chan@.waiters.contains_key(key),
                super::future::is_sender(chan@.waiters[key]),
            ensures
                final(chan).wf(),
                super::future::later_poll(
                    old(chan)@,
                    final(chan)@,
                    key,
                    waker,
                    done.0,
                    done.1,
                ),
            { chan.poll_sender(key, waker) };
        let (result, _released) = self.0.with(ask);
        result
    }

    /// Takes a task out of the queue of senders, unless it is alone in it.
    pub(crate) fn remove_sender(&mut self, key: usize) -> (removed: bool)
        requires
            old(self).wf(),
            old(self)@.waiters.contains_key(key),
            super::future::is_sender(old(self)@.waiters[key]),
        ensures
            final(self).wf(),
            removed == old(self)@.can_leave(true, key),
            final(self)@ == old(self)@.after_remove(true, key),
    {
        let remove = |chan: &mut Chan<T>| -> (removed: bool)
            requires
                chan.wf(),
                chan@.waiters.contains_key(key),
                super::future::is_sender(chan@.waiters[key]),
            ensures
                final(chan).wf(),
                removed == old(chan)@.can_leave(true, key),
                final(chan)@ == old(chan)@.after_remove(true, key),
            { chan.try_remove(true, key) };
        let (result, _released) = self.0.with(remove);
        result
    }

    /// Gives up waiting to send under a key.
    pub(crate) fn cancel(&mut self, key: usize) -> (state: WaiterState<T>)
        requires
            old(self).wf(),
            old(self)@.waiters.contains_key(key),
            super::future::is_sender(old(self)@.waiters[key]),
        ensures
            final(self).wf(),
            state == old(self)@.waiters[key].state,
            final(self)@ == old(self)@.after_cancel(key),
    {
        let cancel = |chan: &mut Chan<T>| -> (state: WaiterState<T>)
            requires
                chan.wf(),
                chan@.waiters.contains_key(key),
                super::future::is_sender(chan@.waiters[key]),
            ensures
                final(chan).wf(),
                state == old(chan)@.waiters[key].state,
                final(chan)@ == old(chan)@.after_cancel(key),
            { chan.cancel_sender(key) };
        let (result, _released) = self.0.with(cancel);
        result
    }
}

} // verus!
