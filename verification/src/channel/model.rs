//! What a channel is, and what its operations do to it.
use std::task::Waker;
use vstd::prelude::*;
use super::error::{TryRecvError, TrySendError};
use super::waiter::{Entry, Waiter, WaiterState};
use crate::waker::atomic::AtomicWaker;

verus! {

/// The waiters but for their links.
pub open spec fn entries<T>(nodes: Map<usize, Waiter<T>>) -> Map<usize, Entry<T>> {
    Map::new(|k: usize| nodes.contains_key(k), |k: usize| nodes[k].entry())
}

/// A channel: the items that it holds, oldest first, how many it holds at most, whether it is
/// closed, and who waits on it, first come first.
#[verifier::ext_equal]
pub ghost struct ChanView<T> {
    pub items: Seq<T>,
    pub bound: Option<nat>,
    pub closed: bool,
    pub senders: Seq<usize>,
    pub receivers: Seq<usize>,
    pub waiters: Map<usize, Entry<T>>,
}

impl<T> ChanView<T> {
    /// What holds of every channel.
    pub open spec fn wf(self) -> bool {
        &&& self.bound is Some ==> self.items.len() <= self.bound->0
        &&& self.closed ==> self.items.len() == 0 && self.senders.len() == 0
            && self.receivers.len() == 0
        &&& self.senders.no_duplicates()
        &&& self.receivers.no_duplicates()
        &&& forall|k: usize| #[trigger]
            self.senders.contains(k) ==> self.waiters.contains_key(k)
                && self.waiters[k].state is Sending && self.waiters[k].waker.prepared()
        &&& forall|k: usize| #[trigger]
            self.receivers.contains(k) ==> self.waiters.contains_key(k)
                && self.waiters[k].state is Receiving && self.waiters[k].waker.prepared()
    }

    /// A channel that nobody has used yet.
    pub open spec fn empty(bound: Option<nat>) -> ChanView<T> {
        ChanView {
            items: Seq::empty(),
            bound,
            closed: false,
            senders: Seq::empty(),
            receivers: Seq::empty(),
            waiters: Map::empty(),
        }
    }

    /// Whether the channel has no room for another item.
    pub open spec fn is_full(self) -> bool {
        self.bound == Some(self.items.len())
    }

    /// Whether the buffer can be made larger when it has to be.
    pub open spec fn can_grow(self) -> bool {
        self.bound is None ==> self.items.len() <= usize::MAX / 4
    }

    /// Whether an item can be sent at once: the queue of receivers can give up its first one, and
    /// the buffer can be made larger.
    pub open spec fn can_send(self) -> bool {
        &&& !self.closed ==> self.receivers.len() != 1
        &&& self.can_grow()
    }

    /// Whether an item can be received at once: the queue of senders can give up its first one.
    pub open spec fn can_recv(self) -> bool {
        !self.closed ==> self.senders.len() != 1
    }

    /// The channel with waiter `k` answered: its state is `state` and its task has been woken.
    pub open spec fn answered(self, k: usize, state: WaiterState<T>) -> ChanView<T> {
        ChanView {
            waiters: self.waiters.insert(
                k,
                Entry { state, waker: self.waiters[k].waker.woken() },
            ),
            ..self
        }
    }

    /// What sending an item at once comes to. The waker is that of the receiver that gets it.
    pub open spec fn send_result(self, item: T) -> Result<Option<Waker>, TrySendError<T>> {
        if self.closed {
            Err(TrySendError::Closed(item))
        } else if self.receivers.len() > 0 {
            Ok(self.waiters[self.receivers[0]].waker.wakes())
        } else if self.is_full() {
            Err(TrySendError::Full(item))
        } else {
            Ok(None)
        }
    }

    /// The channel after an item was sent at once: the first receiver that waits gets it, else it
    /// goes behind the other items. Where it was refused, nothing has changed.
    pub open spec fn after_send(self, item: T) -> ChanView<T> {
        if self.closed {
            self
        } else if self.receivers.len() > 0 {
            ChanView {
                receivers: self.receivers.drop_first(),
                ..self.answered(self.receivers[0], WaiterState::Received(item))
            }
        } else if self.is_full() {
            self
        } else {
            ChanView { items: self.items.push(item), ..self }
        }
    }

    /// What receiving an item at once comes to. The waker is that of the sender whose item it is.
    pub open spec fn recv_result(self) -> Result<(T, Option<Waker>), TryRecvError> {
        if self.closed {
            Err(TryRecvError::Closed)
        } else if self.senders.len() > 0 {
            let entry = self.waiters[self.senders[0]];
            Ok((entry.state->Sending_0, entry.waker.wakes()))
        } else if self.items.len() == 0 {
            Err(TryRecvError::Empty)
        } else {
            Ok((self.items[0], None))
        }
    }

    /// The channel after an item was received at once: the first sender that waits hands over its
    /// item, else it is the oldest item that the channel holds. Where there is none, nothing has
    /// changed.
    pub open spec fn after_recv(self) -> ChanView<T> {
        if self.closed {
            self
        } else if self.senders.len() > 0 {
            ChanView {
                senders: self.senders.drop_first(),
                ..self.answered(self.senders[0], WaiterState::Sent)
            }
        } else if self.items.len() == 0 {
            self
        } else {
            ChanView { items: self.items.drop_first(), ..self }
        }
    }

    /// The channel after it was closed: the items are gone and nobody is queued. The waiters have
    /// not been told yet.
    pub open spec fn after_close(self) -> ChanView<T> {
        ChanView {
            items: Seq::empty(),
            closed: true,
            senders: Seq::empty(),
            receivers: Seq::empty(),
            ..self
        }
    }

    /// The channel after it was closed and those who waited have been told.
    pub open spec fn closed_down(self) -> ChanView<T> {
        ChanView {
            waiters: super::closed::closed_entries(self.waiters, self.senders + self.receivers),
            ..self.after_close()
        }
    }

    /// The channel after a task has begun to wait under key `k`: it waits to send an item, or it
    /// waits for one.
    pub open spec fn after_enqueue(self, k: usize, entry: Entry<T>) -> ChanView<T> {
        ChanView {
            senders: if entry.state is Sending {
                self.senders.push(k)
            } else {
                self.senders
            },
            receivers: if entry.state is Sending {
                self.receivers
            } else {
                self.receivers.push(k)
            },
            waiters: self.waiters.insert(k, entry),
            ..self
        }
    }

    /// The channel with another waker for the task of waiter `k`.
    pub open spec fn with_waker(self, k: usize, waker: Waker) -> ChanView<T> {
        ChanView {
            waiters: self.waiters.insert(
                k,
                Entry {
                    waker: AtomicWaker { waker: Some(waker), ..self.waiters[k].waker },
                    ..self.waiters[k]
                },
            ),
            ..self
        }
    }

    /// The channel after the task of waiter `k` was registered anew with `waker`: the waiter has
    /// that waker, or still the old one where both wake the same task.
    pub open spec fn registers(self, after: ChanView<T>, k: usize, waker: Waker) -> bool {
        ||| after == self.with_waker(k, waker)
        ||| after == self && crate::waker::atomic::same_task(waker, self.waiters[k].waker.waker->0)
    }

    /// The channel without waiter `k`, which is in no queue.
    pub open spec fn after_take(self, k: usize) -> ChanView<T> {
        ChanView { waiters: self.waiters.remove(k), ..self }
    }

    /// Whether waiter `k` is in the queue of senders, or in that of receivers.
    pub open spec fn is_queued(self, is_sender: bool, k: usize) -> bool {
        if is_sender {
            self.senders.contains(k)
        } else {
            self.receivers.contains(k)
        }
    }

    /// Whether waiter `k` can leave its queue: it is in it, and not alone.
    pub open spec fn can_leave(self, is_sender: bool, k: usize) -> bool {
        &&& self.is_queued(is_sender, k)
        &&& if is_sender {
            self.senders.len() > 1
        } else {
            self.receivers.len() > 1
        }
    }

    /// The channel after waiter `k` was to leave its queue. One that is alone stays.
    pub open spec fn after_remove(self, is_sender: bool, k: usize) -> ChanView<T> {
        if !self.can_leave(is_sender, k) {
            self
        } else if is_sender {
            ChanView { senders: super::keys::without(self.senders, k), ..self }
        } else {
            ChanView { receivers: super::keys::without(self.receivers, k), ..self }
        }
    }

    /// The channel after the task of sender `k` has given up: it is in no queue, though it was
    /// alone, and its waiter has been taken out.
    pub open spec fn after_cancel(self, k: usize) -> ChanView<T> {
        ChanView {
            senders: if self.senders.contains(k) {
                super::keys::without(self.senders, k)
            } else {
                self.senders
            },
            waiters: self.waiters.remove(k),
            ..self
        }
    }
}

} // verus!
