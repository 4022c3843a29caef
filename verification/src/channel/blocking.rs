//! Sending that blocks a thread while there is no room.
//!
//! Times are counted in nanoseconds from a common start. A thread that is told to park goes on,
//! once it has been woken or its time is up, with the future that it was handed.
use std::task::Waker;
use vstd::prelude::*;
use super::channel::Channel;
use super::error::{SendError, TrySendError, TrySendTimeoutError};
use super::future::{FutureOpState, SendFuture};
use super::model::ChanView;
use super::waiter::WaiterState;
use crate::waker::atomic::Poll;

verus! {

/// What one round of a blocking operation comes to.
pub enum Round<T> {
    /// The operation is over.
    Ready(Result<(), SendError<T>>),
    /// The thread is to park.
    Parked,
    /// The time was up first. The task no longer waits.
    TimedOut(WaiterState<T>),
}

/// What a blocking operation comes to.
pub enum Blocking<T, E> {
    /// It is over.
    Done(Result<(), E>),
    /// The thread is to park, and to go on with this future.
    Parked(SendFuture<T>),
}

/// Whether the time is up.
pub open spec fn expired(deadline: Option<u64>, now: u64) -> bool {
    deadline is Some && now >= deadline->0
}

/// What the first round comes to of sending `item`.
pub open spec fn first_round<T>(
    before: ChanView<T>,
    after: ChanView<T>,
    item: T,
    waker: Waker,
    is_expired: bool,
    state: FutureOpState<T>,
    round: Round<T>,
) -> bool {
    match before.send_result(item) {
        Ok(_) => {
            &&& after == before.after_send(item)
            &&& state is Completed
            &&& round == Round::<T>::Ready(Ok(()))
        },
        Err(TrySendError::Closed(_)) => {
            &&& after == before
            &&& state is Completed
            &&& round == Round::Ready(Err(SendError::Closed(item)))
        },
        Err(TrySendError::Full(_)) => if is_expired {
            &&& after == before
            &&& state is Completed
            &&& round == Round::TimedOut(WaiterState::Sending(item))
        } else {
            &&& state is Waiting
            &&& !before.waiters.contains_key(state->Waiting_0)
            &&& after == before.after_enqueue(
                state->Waiting_0,
                super::future::sender(item, waker),
            )
            &&& round is Parked
        },
    }
}

/// What a later round comes to of a task that waits under `key`.
pub open spec fn later_round<T>(
    before: ChanView<T>,
    after: ChanView<T>,
    key: usize,
    waker: Waker,
    is_expired: bool,
    state: FutureOpState<T>,
    round: Round<T>,
) -> bool {
    if before.waiters[key].waker.notified() {
        &&& after == before.after_take(key)
        &&& state is Completed
        &&& round == Round::Ready(super::future::sender_result(before.waiters[key].state))
    } else if is_expired {
        &&& after == before.after_cancel(key)
        &&& state is Completed
        &&& round == Round::TimedOut(before.waiters[key].state)
    } else {
        &&& before.registers(after, key, waker)
        &&& state == FutureOpState::<T>::Waiting(key)
        &&& round is Parked
    }
}

/// What a thread is told that sends without a time limit.
spec fn send_outcome<T>(
    state: FutureOpState<T>,
    round: Round<T>,
    outcome: Blocking<T, SendError<T>>,
) -> bool {
    match round {
        Round::Ready(result) => outcome == Blocking::<T, SendError<T>>::Done(result),
        Round::Parked => outcome is Parked && outcome->Parked_0.0.state == state,
        Round::TimedOut(_) => false,
    }
}

/// What a thread is told that sends with a time limit.
spec fn timed_outcome<T>(
    state: FutureOpState<T>,
    round: Round<T>,
    outcome: Blocking<T, TrySendTimeoutError<T>>,
) -> bool {
    match round {
        Round::Ready(Ok(())) => outcome == Blocking::<T, TrySendTimeoutError<T>>::Done(Ok(())),
        Round::Ready(Err(SendError::Closed(item))) => outcome == Blocking::<
            T,
            TrySendTimeoutError<T>,
        >::Done(Err(TrySendTimeoutError::Closed(item))),
        Round::Parked => outcome is Parked && outcome->Parked_0.0.state == state,
        Round::TimedOut(state) => outcome == Blocking::<T, TrySendTimeoutError<T>>::Done(
            Err(timeout_error(state)),
        ),
    }
}

/// A thread that parks waits to send `item`.
pub open spec fn parks<T>(
    before: ChanView<T>,
    after: ChanView<T>,
    item: T,
    waker: Waker,
    future: SendFuture<T>,
) -> bool {
    &&& future.0.state is Waiting
    &&& !before.waiters.contains_key(future.0.state->Waiting_0)
    &&& after == before.after_enqueue(
        future.0.state->Waiting_0,
        super::future::sender(item, waker),
    )
}

/// A thread that parks again waits on, perhaps with another waker.
pub open spec fn parks_again<T>(
    before: ChanView<T>,
    after: ChanView<T>,
    key: usize,
    waker: Waker,
    future: SendFuture<T>,
) -> bool {
    &&& future.0.state == FutureOpState::<T>::Waiting(key)
    &&& before.registers(after, key, waker)
}

/// What it comes to that a thread begins to send `item` without a time limit.
pub open spec fn send_begun<T>(
    before: ChanView<T>,
    after: ChanView<T>,
    item: T,
    waker: Waker,
    outcome: Blocking<T, SendError<T>>,
) -> bool {
    match before.send_result(item) {
        Ok(_) => {
            &&& after == before.after_send(item)
            &&& outcome == Blocking::<T, SendError<T>>::Done(Ok(()))
        },
        Err(TrySendError::Closed(_)) => {
            &&& after == before
            &&& outcome == Blocking::<T, SendError<T>>::Done(Err(SendError::Closed(item)))
        },
        Err(TrySendError::Full(_)) => {
            &&& outcome is Parked
            &&& parks(before, after, item, waker, outcome->Parked_0)
        },
    }
}

/// What it comes to that a thread goes on with sending, without a time limit.
pub open spec fn send_resumed<T>(
    before: ChanView<T>,
    after: ChanView<T>,
    key: usize,
    waker: Waker,
    outcome: Blocking<T, SendError<T>>,
) -> bool {
    if before.waiters[key].waker.notified() {
        &&& after == before.after_take(key)
        &&& outcome == Blocking::<T, SendError<T>>::Done(
            super::future::sender_result(before.waiters[key].state),
        )
    } else {
        &&& outcome is Parked
        &&& parks_again(before, after, key, waker, outcome->Parked_0)
    }
}

/// What it comes to that a thread begins to send `item` with a time limit.
pub open spec fn timed_begun<T>(
    before: ChanView<T>,
    after: ChanView<T>,
    item: T,
    waker: Waker,
    is_expired: bool,
    outcome: Blocking<T, TrySendTimeoutError<T>>,
) -> bool {
    match before.send_result(item) {
        Ok(_) => {
            &&& after == before.after_send(item)
            &&& outcome == Blocking::<T, TrySendTimeoutError<T>>::Done(Ok(()))
        },
        Err(TrySendError::Closed(_)) => {
            &&& after == before
            &&& outcome == Blocking::<T, TrySendTimeoutError<T>>::Done(
                Err(TrySendTimeoutError::Closed(item)),
            )
        },
        Err(TrySendError::Full(_)) => if is_expired {
            &&& after == before
            &&& outcome == Blocking::<T, TrySendTimeoutError<T>>::Done(
                Err(TrySendTimeoutError::TimedOut(item)),
            )
        } else {
            &&& outcome is Parked
            &&& parks(before, after, item, waker, outcome->Parked_0)
        },
    }
}

/// What it comes to that a thread begins at `now` to send `item`, until `deadline` at most.
pub open spec fn sent_until<T>(
    before: ChanView<T>,
    after: ChanView<T>,
    item: T,
    waker: Waker,
    deadline: u64,
    now: u64,
    outcome: Blocking<T, TrySendTimeoutError<T>>,
) -> bool {
    timed_begun(before, after, item, waker, now >= deadline, outcome)
}

/// What it comes to that a thread begins to send `item`, for `timeout` at most: the time is up at once
/// only where there is none.
pub open spec fn sent_for<T>(
    before: ChanView<T>,
    after: ChanView<T>,
    item: T,
    waker: Waker,
    timeout: u64,
    outcome: Blocking<T, TrySendTimeoutError<T>>,
) -> bool {
    timed_begun(before, after, item, waker, timeout == 0, outcome)
}

/// What it comes to that a thread goes on with sending, with a time limit.
pub open spec fn timed_resumed<T>(
    before: ChanView<T>,
    after: ChanView<T>,
    key: usize,
    waker: Waker,
    is_expired: bool,
    outcome: Blocking<T, TrySendTimeoutError<T>>,
) -> bool {
    let state = before.waiters[key].state;
    if before.waiters[key].waker.notified() {
        &&& after == before.after_take(key)
        &&& outcome == Blocking::<T, TrySendTimeoutError<T>>::Done(
            match super::future::sender_result(state) {
                Ok(()) => Ok(()),
                Err(SendError::Closed(item)) => Err(TrySendTimeoutError::Closed(item)),
            },
        )
    } else if is_expired {
        &&& after == before.after_cancel(key)
        &&& outcome == Blocking::<T, TrySendTimeoutError<T>>::Done(
            Err(TrySendTimeoutError::TimedOut(state->Sending_0)),
        )
    } else {
        &&& outcome is Parked
        &&& parks_again(before, after, key, waker, outcome->Parked_0)
    }
}

/// Why an item was not sent in time, by what had become of the task that waited.
pub open spec fn timeout_error<T>(state: WaiterState<T>) -> TrySendTimeoutError<T> {
    match state {
        WaiterState::Closed(item) => TrySendTimeoutError::Closed(item->0),
        _ => TrySendTimeoutError::TimedOut(state->Sending_0),
    }
}

/// Why an item was not sent in time, by what had become of the task that waited.
pub fn to_timeout_error<T>(state: WaiterState<T>) -> (error: Option<TrySendTimeoutError<T>>)
    ensures
        error is Some == (state is Sending || (state is Closed && state->Closed_0 is Some)),
        error is Some ==> error->0 == timeout_error(state),
        error == match state {
            WaiterState::Closed(Some(item)) => Some(TrySendTimeoutError::Closed(item)),
            WaiterState::Sending(item) => Some(TrySendTimeoutError::TimedOut(item)),
            _ => None,
        },
{
    match state {
        WaiterState::Closed(Some(item)) => Some(TrySendTimeoutError::Closed(item)),
        WaiterState::Sending(item) => Some(TrySendTimeoutError::TimedOut(item)),
        _ => None,
    }
}

/// What a thread is told by a round without a time limit.
fn send_told<T>(round: Round<T>, future: SendFuture<T>) -> (outcome: Blocking<T, SendError<T>>)
    requires
        !(round is TimedOut),
    ensures
        send_outcome(future.0.state, round, outcome),
{
    match round {
        Round::Ready(result) => Blocking::Done(result),
        _ => Blocking::Parked(future),
    }
}

/// What a thread is told by a round with a time limit.
fn timed_told<T>(round: Round<T>, future: SendFuture<T>) -> (outcome: Blocking<
    T,
    TrySendTimeoutError<T>,
>)
    requires
        round is TimedOut ==> round->TimedOut_0 is Sending,
    ensures
        timed_outcome(future.0.state, round, outcome),
{
    match round {
        Round::Ready(Ok(())) => Blocking::Done(Ok(())),
        Round::Ready(Err(SendError::Closed(item))) => Blocking::Done(
            Err(TrySendTimeoutError::Closed(item)),
        ),
        Round::Parked => Blocking::Parked(future),
        Round::TimedOut(state) => match to_timeout_error(state) {
            Some(error) => Blocking::Done(Err(error)),
            None => Blocking::Parked(future),
        },
    }
}

impl<T> Channel<T> {
    /// One round of a blocking operation: polls the future, and gives it up where it has not come
    /// to an end and the time is up.
    pub fn sync(
        &mut self,
        deadline: Option<u64>,
        now: u64,
        future: &mut SendFuture<T>,
        waker: Waker,
    ) -> (round: Round<T>)
        requires
            old(self).wf(),
            old(future).0.state is TryOp ==> old(self)@.can_send(),
            old(future).fits(old(self)@),
        ensures
            final(self).wf(),
            match old(future).0.state {
                FutureOpState::TryOp(item) => first_round(
                    old(self)@,
                    final(self)@,
                    item->0,
                    waker,
                    expired(deadline, now),
                    final(future).0.state,
                    round,
                ),
                FutureOpState::Waiting(key) => later_round(
                    old(self)@,
                    final(self)@,
                    key,
                    waker,
                    expired(deadline, now),
                    final(future).0.state,
                    round,
                ),
                FutureOpState::Completed => true,
            },
            round is Parked ==> final(future).fits(final(self)@),
            round is TimedOut ==> deadline is Some && round->TimedOut_0 is Sending,
    {
        let ghost before = self@;
        proof {
            self.lemma_wf();
        }
        let poll: Poll<Result<(), SendError<T>>> = future.poll(self, waker);
        match poll {
            Poll::Ready(result) => {
                return Round::Ready(result);
            },
            Poll::Pending => {},
        }
        let is_expired: bool = match deadline {
            Some(deadline) => now >= deadline,
            None => false,
        };
        if !is_expired {
            return Round::Parked;
        }
        let ghost pending = self@;
        let mut state: FutureOpState<T> = FutureOpState::Completed;
        std::mem::swap(&mut future.0.state, &mut state);
        match state {
            FutureOpState::Waiting(key) => {
                let state: WaiterState<T> = self.cancel(key);
                proof {
                    if !before.waiters.contains_key(key) {
                        lemma_undone(before, key, pending.waiters[key]);
                    } else {
                        assert(self@ =~= before.after_cancel(key));
                    }
                }
                Round::TimedOut(state)
            },
            _ => Round::Parked,
        }
    }

    /// Sends an item, and blocks the thread while there is no room.
    pub fn send(&mut self, item: T, waker: Waker) -> (outcome: Blocking<T, SendError<T>>)
        requires
            old(self).wf(),
            old(self)@.can_send(),
        ensures
            final(self).wf(),
            send_begun(old(self)@, final(self)@, item, waker, outcome),
            outcome is Done && outcome->Done_0 is Err ==> old(self)@.closed,
            outcome is Parked ==> outcome->Parked_0.fits(final(self)@),
    {
        let mut future: SendFuture<T> = self.send_async(item);
        let round: Round<T> = self.sync(None, 0, &mut future, waker);
        send_told(round, future)
    }

    /// Goes on with sending an item after the thread was woken.
    pub fn resume_send(&mut self, future: SendFuture<T>, waker: Waker) -> (outcome: Blocking<
        T,
        SendError<T>,
    >)
        requires
            old(self).wf(),
            future.0.state is Waiting,
            future.fits(old(self)@),
        ensures
            final(self).wf(),
            send_resumed(
                old(self)@,
                final(self)@,
                future.0.state->Waiting_0,
                waker,
                outcome,
            ),
            outcome is Parked ==> outcome->Parked_0.fits(final(self)@),
    {
        let mut future: SendFuture<T> = future;
        let round: Round<T> = self.sync(None, 0, &mut future, waker);
        send_told(round, future)
    }

    /// Sends an item, and blocks the thread while there is no room, until the deadline at most. An
    /// item that was not sent comes back.
    pub fn try_send_until(&mut self, item: T, deadline: u64, now: u64, waker: Waker) -> (outcome:
        Blocking<T, TrySendTimeoutError<T>>)
        requires
            old(self).wf(),
            old(self)@.can_send(),
        ensures
            final(self).wf(),
            sent_until(old(self)@, final(self)@, item, waker, deadline, now, outcome),
            outcome is Parked ==> now < deadline,
            outcome matches Blocking::Done(Err(TrySendTimeoutError::TimedOut(_))) ==> now
                >= deadline,
            outcome matches Blocking::Done(Err(TrySendTimeoutError::Closed(_))) ==> old(
                self,
            )@.closed,
            outcome is Parked ==> outcome->Parked_0.fits(final(self)@),
    {
        let mut future: SendFuture<T> = self.send_async(item);
        let round: Round<T> = self.sync(Some(deadline), now, &mut future, waker);
        timed_told(round, future)
    }

    /// Goes on with sending an item after the thread was woken, or its time is up.
    pub fn resume_until(
        &mut self,
        future: SendFuture<T>,
        deadline: u64,
        now: u64,
        waker: Waker,
    ) -> (outcome: Blocking<T, TrySendTimeoutError<T>>)
        requires
            old(self).wf(),
            future.0.state is Waiting,
            future.fits(old(self)@),
        ensures
            final(self).wf(),
            timed_resumed(
                old(self)@,
                final(self)@,
                future.0.state->Waiting_0,
                waker,
                now >= deadline,
                outcome,
            ),
            outcome is Parked ==> outcome->Parked_0.fits(final(self)@),
    {
        let mut future: SendFuture<T> = future;
        let round: Round<T> = self.sync(Some(deadline), now, &mut future, waker);
        timed_told(round, future)
    }

    /// Sends an item, and blocks the thread while there is no room, for this time at most. The
    /// deadline is handed out too, for the thread to go on with.
    pub fn try_send_for(&mut self, item: T, timeout: u64, now: u64, waker: Waker) -> (done: (
        Blocking<T, TrySendTimeoutError<T>>,
        u64,
    ))
        requires
            old(self).wf(),
            old(self)@.can_send(),
            now + timeout <= u64::MAX,
        ensures
            final(self).wf(),
            sent_for(old(self)@, final(self)@, item, waker, timeout, done.0),
            done.0 is Parked ==> timeout > 0,
            done.0 matches Blocking::Done(Err(TrySendTimeoutError::TimedOut(_))) ==> timeout == 0,
            done.0 matches Blocking::Done(Err(TrySendTimeoutError::Closed(_))) ==> old(
                self,
            )@.closed,
            done.0 is Parked ==> done.0->Parked_0.fits(final(self)@),
            done.1 == now + timeout,
    {
        let deadline: u64 = now + timeout;
        let outcome = self.try_send_until(item, deadline, now, waker);
        (outcome, deadline)
    }
}

/// Waiting and then giving up leaves a channel as it was.
pub proof fn lemma_undone<T>(chan: ChanView<T>, key: usize, entry: super::waiter::Entry<T>)
    requires
        chan.wf(),
        !chan.waiters.contains_key(key),
        entry.state is Sending,
    ensures
        chan.after_enqueue(key, entry).after_cancel(key) == chan,
{
    let q = chan.senders.push(key);
    assert(!chan.senders.contains(key));
    assert(q[chan.senders.len() as int] == key);
    assert(q.contains(key));
    assert(q.index_of(key) == chan.senders.len()) by {
        let i = q.index_of(key);
        assert(q[i] == key);
        if i < chan.senders.len() {
            assert(chan.senders[i] == key);
        }
    }
    assert(super::keys::without(q, key) =~= chan.senders);
    assert(chan.after_enqueue(key, entry).after_cancel(key) =~= chan);
}

} // verus!
