//! What holds over everything that tasks do on a channel, one operation after the other.
use std::task::Waker;
use vstd::multiset::Multiset;
use vstd::prelude::*;
use super::error::TryRecvError;
use super::model::ChanView;
use super::waiter::{Entry, WaiterState};
use crate::waker::atomic::AtomicWaker;

verus! {

/// One operation on a channel.
pub ghost enum Op<T> {
    /// Sends an item; where there is no room, a task begins to wait under this key.
    Send { item: T, key: usize, waker: Waker },
    /// Receives an item; where there is none, a task begins to wait under this key.
    Recv { key: usize, waker: Waker },
    /// The task under this key gives up waiting to send, or to receive.
    GiveUp { is_sender: bool, key: usize },
    /// The task under this key is to leave the queue of senders, or of receivers, and keeps its
    /// waiter. One that is alone stays.
    Remove { is_sender: bool, key: usize },
    /// The task under this key, which no longer waits, takes its waiter out.
    Leave { key: usize },
    Close,
}

/// What a run of operations has come to.
pub ghost struct Run<T> {
    pub chan: ChanView<T>,
    /// The items for which there was room, or a task that waited, in order.
    pub accepted: Seq<T>,
    /// The items that were received, or handed to a task that waited, in order.
    pub received: Seq<T>,
    /// All items that were sent, those that had to wait among them.
    pub sent: Multiset<T>,
    /// The items that went back to, or stay with, a task that no longer waits to send them.
    pub returned: Multiset<T>,
    /// The items that were dropped when the channel was closed.
    pub dropped: Multiset<T>,
}

/// The waiter of a task that receives and is woken by `waker`.
pub open spec fn receiver<T>(waker: Waker) -> Entry<T> {
    Entry {
        state: WaiterState::Receiving,
        waker: AtomicWaker { state: crate::waker::machine::WAKER_WAITING, waker: Some(waker) },
    }
}

/// The items of the tasks that wait to send, in their order.
pub open spec fn pending<T>(chan: ChanView<T>) -> Seq<T> {
    Seq::new(chan.senders.len(), |i: int| chan.waiters[chan.senders[i]].state->Sending_0)
}

impl<T> Run<T> {
    /// Nothing has been done yet.
    pub open spec fn begin(chan: ChanView<T>) -> Run<T> {
        Run {
            chan,
            accepted: Seq::empty(),
            received: Seq::empty(),
            sent: Multiset::empty(),
            returned: Multiset::empty(),
            dropped: Multiset::empty(),
        }
    }

    /// Whether an operation can come next: a key to wait under is not in use, the first waiter of a
    /// queue is not alone when it is to be answered, one that gives up is in its queue, a receiver
    /// not alone, and one that leaves is in none.
    pub open spec fn allows(self, op: Op<T>) -> bool {
        match op {
            Op::Send { key, .. } => {
                &&& !self.chan.waiters.contains_key(key)
                &&& !self.chan.closed ==> self.chan.receivers.len() != 1
            },
            Op::Recv { key, .. } => {
                &&& !self.chan.waiters.contains_key(key)
                &&& self.chan.can_recv()
            },
            Op::GiveUp { is_sender, key } => {
                &&& self.chan.is_queued(is_sender, key)
                &&& !is_sender ==> self.chan.can_leave(false, key)
            },
            Op::Remove { is_sender, key } => {
                &&& self.chan.waiters.contains_key(key)
                &&& !self.chan.is_queued(!is_sender, key)
            },
            Op::Leave { key } => !self.chan.is_queued(true, key) && !self.chan.is_queued(
                false,
                key,
            ),
            Op::Close => true,
        }
    }

    /// One more operation.
    pub open spec fn after(self, op: Op<T>) -> Run<T> {
        match op {
            Op::Send { item, key, waker } => if self.chan.send_result(item) is Ok {
                Run {
                    chan: self.chan.after_send(item),
                    accepted: self.accepted.push(item),
                    received: if self.chan.receivers.len() > 0 {
                        self.received.push(item)
                    } else {
                        self.received
                    },
                    sent: self.sent.insert(item),
                    ..self
                }
            } else if self.chan.closed {
                self
            } else {
                Run {
                    chan: self.chan.after_enqueue(key, super::future::sender(item, waker)),
                    sent: self.sent.insert(item),
                    ..self
                }
            },
            Op::Recv { key, waker } => match self.chan.recv_result() {
                Ok((item, _)) => Run {
                    chan: self.chan.after_recv(),
                    received: self.received.push(item),
                    ..self
                },
                Err(TryRecvError::Empty) => Run {
                    chan: self.chan.after_enqueue(key, receiver(waker)),
                    ..self
                },
                Err(TryRecvError::Closed) => self,
            },
            Op::GiveUp { is_sender, key } => Run {
                chan: if is_sender {
                    self.chan.after_cancel(key)
                } else {
                    self.chan.after_remove(false, key).after_take(key)
                },
                returned: if is_sender {
                    self.returned.insert(self.chan.waiters[key].state->Sending_0)
                } else {
                    self.returned
                },
                ..self
            },
            Op::Remove { is_sender, key } => Run {
                chan: self.chan.after_remove(is_sender, key),
                returned: if is_sender && self.chan.senders.contains(key)
                    && self.chan.senders.len() > 1 {
                    self.returned.insert(self.chan.waiters[key].state->Sending_0)
                } else {
                    self.returned
                },
                ..self
            },
            Op::Leave { key } => Run { chan: self.chan.after_take(key), ..self },
            Op::Close => Run {
                chan: self.chan.closed_down(),
                returned: self.returned.add(pending(self.chan).to_multiset()),
                dropped: self.dropped.add(self.chan.items.to_multiset()),
                ..self
            },
        }
    }

    /// Whether the operations can come one after the other.
    pub open spec fn allows_all(self, ops: Seq<Op<T>>) -> bool
        decreases ops.len(),
    {
        ops.len() > 0 ==> self.allows(ops[0]) && self.after(ops[0]).allows_all(ops.drop_first())
    }

    /// The operations one after the other.
    pub open spec fn after_all(self, ops: Seq<Op<T>>) -> Run<T>
        decreases ops.len(),
    {
        if ops.len() == 0 {
            self
        } else {
            self.after(ops[0]).after_all(ops.drop_first())
        }
    }

    /// Whether the channel takes every item that the operations send.
    pub open spec fn takes_all(self, ops: Seq<Op<T>>) -> bool
        decreases ops.len(),
    {
        ops.len() > 0 ==> {
            &&& ops[0] matches Op::Send { item, .. } ==> self.chan.send_result(item) is Ok
            &&& self.after(ops[0]).takes_all(ops.drop_first())
        }
    }

    /// Where the items are that were sent.
    pub open spec fn accounted(self) -> Multiset<T> {
        self.received.to_multiset().add(self.chan.items.to_multiset()).add(
            pending(self.chan).to_multiset(),
        ).add(self.returned).add(self.dropped)
    }
}

/// No task waits to send while there is room or somebody waits to receive, and none waits to
/// receive while there is an item to be had.
pub open spec fn settled<T>(chan: ChanView<T>) -> bool {
    &&& chan.senders.len() > 0 ==> chan.is_full() && chan.receivers.len() == 0
    &&& chan.receivers.len() > 0 ==> chan.items.len() == 0
}

/// One operation leaves a channel, and a settled one settled.
proof fn lemma_step_keeps<T>(run: Run<T>, op: Op<T>)
    requires
        run.chan.wf(),
        run.allows(op),
    ensures
        run.after(op).chan.wf(),
        settled(run.chan) ==> settled(run.after(op).chan),
{
    let chan = run.chan;
    match op {
        Op::Send { item, key, waker } => {
            super::laws::law_operations_keep_the_channel(
                chan,
                item,
                key,
                super::future::sender(item, waker),
            );
        },
        Op::Recv { key, waker } => {
            super::laws::law_operations_keep_the_channel(
                chan,
                arbitrary(),
                key,
                receiver(waker),
            );
        },
        Op::GiveUp { is_sender, key } => {
            super::laws::law_operations_keep_the_channel(chan, arbitrary(), key, arbitrary());
        },
        Op::Remove { is_sender, key } => {
            super::laws::law_operations_keep_the_channel(chan, arbitrary(), key, arbitrary());
        },
        Op::Leave { key } => {
            super::laws::law_operations_keep_the_channel(chan, arbitrary(), key, arbitrary());
        },
        Op::Close => {
            super::laws::law_operations_keep_the_channel(chan, arbitrary(), 0, arbitrary());
        },
    }
}

/// Nobody waits in vain: whatever tasks do, no task waits to send while there is room or somebody
/// waits to receive, and none waits to receive while there is an item to be had.
pub proof fn law_nobody_waits_in_vain<T>(run: Run<T>, ops: Seq<Op<T>>)
    requires
        run.chan.wf(),
        settled(run.chan),
        run.allows_all(ops),
    ensures
        run.after_all(ops).chan.wf(),
        settled(run.after_all(ops).chan),
    decreases ops.len(),
{
    if ops.len() > 0 {
        lemma_step_keeps(run, ops[0]);
        law_nobody_waits_in_vain(run.after(ops[0]), ops.drop_first());
    }
}

/// First in, first out: as long as the channel takes every item that is sent, what is received is
/// what was sent, in the same order, and the channel holds the rest.
pub proof fn law_first_in_first_out<T>(run: Run<T>, ops: Seq<Op<T>>)
    requires
        run.chan.wf(),
        settled(run.chan),
        run.chan.senders.len() == 0,
        run.allows_all(ops),
        run.takes_all(ops),
        forall|i: int| 0 <= i < ops.len() ==> !(#[trigger] ops[i] is Close),
    ensures
        ({
            let end = run.after_all(ops);
            &&& run.received.len() <= end.received.len()
            &&& run.accepted.len() <= end.accepted.len()
            &&& run.chan.items + end.accepted.skip(run.accepted.len() as int)
                == end.received.skip(run.received.len() as int) + end.chan.items
            &&& run.accepted == end.accepted.take(run.accepted.len() as int)
            &&& run.received == end.received.take(run.received.len() as int)
        }),
    decreases ops.len(),
{
    let end = run.after_all(ops);
    let a = run.accepted.len() as int;
    let r = run.received.len() as int;
    if ops.len() == 0 {
        assert(run.chan.items + end.accepted.skip(a) =~= end.received.skip(r) + end.chan.items);
    } else {
        let next = run.after(ops[0]);
        lemma_step_keeps(run, ops[0]);
        assert forall|i: int| 0 <= i < ops.drop_first().len() implies !(#[trigger] ops.drop_first()[i]
            is Close) by {
            assert(!(ops[i + 1] is Close));
        }
        law_first_in_first_out(next, ops.drop_first());
        match ops[0] {
            Op::Send { item, .. } => {
                assert(end.accepted.take(a + 1)[a] == item);
                assert(end.accepted.skip(a) =~= seq![item] + end.accepted.skip(a + 1));
                assert(end.accepted.take(a) =~= end.accepted.take(a + 1).drop_last());
                assert(run.accepted =~= next.accepted.drop_last());
                if run.chan.receivers.len() > 0 {
                    assert(end.received.take(r + 1)[r] == item);
                    assert(end.received.skip(r) =~= seq![item] + end.received.skip(r + 1));
                    assert(end.received.take(r) =~= end.received.take(r + 1).drop_last());
                    assert(run.received =~= next.received.drop_last());
                    assert(run.chan.items + end.accepted.skip(a) =~= seq![item] + (
                    next.chan.items + end.accepted.skip(a + 1)));
                    assert(end.received.skip(r) + end.chan.items =~= seq![item] + (
                    end.received.skip(r + 1) + end.chan.items));
                } else {
                    assert(run.chan.items + end.accepted.skip(a) =~= next.chan.items
                        + end.accepted.skip(a + 1));
                }
            },
            Op::Recv { .. } => {
                if run.chan.items.len() > 0 {
                    let item = run.chan.items[0];
                    assert(end.received.take(r + 1)[r] == item);
                    assert(end.received.skip(r) =~= seq![item] + end.received.skip(r + 1));
                    assert(run.chan.items =~= seq![item] + next.chan.items);
                    assert(run.chan.items + end.accepted.skip(a) =~= seq![item] + (
                    next.chan.items + end.accepted.skip(a)));
                    assert(end.received.skip(r) + end.chan.items =~= seq![item] + (
                    end.received.skip(r + 1) + end.chan.items));
                    assert(end.received.take(r) =~= end.received.take(r + 1).drop_last());
                    assert(run.received =~= next.received.drop_last());
                }
            },
            _ => {},
        }
    }
}

/// The items of the tasks that wait depend on nothing but the waiters in the queue.
proof fn lemma_pending<T>(before: ChanView<T>, after: ChanView<T>)
    requires
        after.senders == before.senders,
        forall|k: usize| #[trigger]
            before.senders.contains(k) ==> after.waiters[k] == before.waiters[k],
    ensures
        pending(after) == pending(before),
{
    assert forall|i: int| 0 <= i < before.senders.len() implies before.senders.contains(
        #[trigger] before.senders[i],
    ) by {}
    assert(pending(after) =~= pending(before));
}

/// One operation accounts for the items that it moves.
proof fn lemma_step_accounts<T>(run: Run<T>, op: Op<T>)
    requires
        run.chan.wf(),
        run.allows(op),
    ensures
        run.after(op).accounted().add(run.sent) == run.accounted().add(run.after(op).sent),
{
    broadcast use vstd::seq_lib::group_to_multiset_ensures;
    broadcast use vstd::multiset::group_multiset_axioms;

    let chan = run.chan;
    let next = run.after(op);
    match op {
        Op::Send { item, key, waker } => {
            if chan.send_result(item) is Ok {
                if chan.receivers.len() > 0 {
                    assert(chan.receivers.contains(chan.receivers[0]));
                    assert(next.received.to_multiset() =~= run.received.to_multiset().insert(item));
                } else {
                    assert(next.chan.items.to_multiset() =~= chan.items.to_multiset().insert(
                        item,
                    ));
                }
                lemma_pending(chan, next.chan);
            } else if !chan.closed {
                assert forall|i: int| 0 <= i < chan.senders.len() implies #[trigger]
                    chan.senders[i] != key by {
                    assert(chan.senders.contains(chan.senders[i]));
                }
                assert(pending(next.chan) =~= pending(chan).push(item));
                assert(pending(next.chan).to_multiset() =~= pending(chan).to_multiset().insert(
                    item,
                ));
            }
        },
        Op::Recv { key, waker } => {
            if chan.closed {
            } else if chan.senders.len() > 0 {
                let item = pending(chan)[0];
                assert(pending(next.chan) =~= pending(chan).remove(0));
                assert(pending(chan).contains(item));
                assert(pending(chan).to_multiset() =~= pending(next.chan).to_multiset().insert(
                    item,
                ));
                assert(next.received.to_multiset() =~= run.received.to_multiset().insert(item));
            } else if chan.items.len() > 0 {
                let item = chan.items[0];
                lemma_pending(chan, next.chan);
                assert(next.chan.items =~= chan.items.remove(0));
                assert(chan.items.contains(item));
                assert(chan.items.to_multiset() =~= next.chan.items.to_multiset().insert(item));
                assert(next.received.to_multiset() =~= run.received.to_multiset().insert(item));
            } else {
                lemma_pending(chan, next.chan);
            }
        },
        Op::GiveUp { is_sender, key } => {
            if is_sender {
                let n = chan.senders.index_of(key);
                let item = chan.waiters[key].state->Sending_0;
                assert(chan.senders[n] == key);
                super::keys::lemma_without(chan.senders, key);
                assert(pending(chan)[n] == item);
                assert(pending(next.chan) =~= pending(chan).remove(n));
                assert(pending(chan).contains(item));
                assert(pending(chan).to_multiset() =~= pending(next.chan).to_multiset().insert(
                    item,
                ));
            } else {
                lemma_pending(chan, next.chan);
            }
        },
        Op::Remove { is_sender, key } => {
            if is_sender && chan.senders.contains(key) && chan.senders.len() > 1 {
                let n = chan.senders.index_of(key);
                let item = chan.waiters[key].state->Sending_0;
                assert(chan.senders[n] == key);
                super::keys::lemma_without(chan.senders, key);
                assert(pending(chan)[n] == item);
                assert(pending(next.chan) =~= pending(chan).remove(n));
                assert(pending(chan).contains(item));
                assert(pending(chan).to_multiset() =~= pending(next.chan).to_multiset().insert(
                    item,
                ));
            } else {
                lemma_pending(chan, next.chan);
            }
        },
        Op::Leave { key } => {
            lemma_pending(chan, next.chan);
        },
        Op::Close => {
            assert(pending(next.chan) =~= Seq::empty());
            assert(next.chan.items =~= Seq::empty());
        },
    }
    assert(next.accounted().add(run.sent) =~= run.accounted().add(next.sent));
}

/// Nothing is lost and nothing is received twice: whatever tasks do that send, receive, wait, give
/// up and close the channel, every item that was sent has been received once, or is in the buffer,
/// or is with the task that waits to send it, or is back with a task that no longer waits, or was
/// dropped with the buffer when the channel was closed.
pub proof fn law_nothing_lost_or_doubled<T>(run: Run<T>, ops: Seq<Op<T>>)
    requires
        run.chan.wf(),
        run.allows_all(ops),
    ensures
        run.after_all(ops).accounted().add(run.sent) == run.accounted().add(
            run.after_all(ops).sent,
        ),
    decreases ops.len(),
{
    broadcast use vstd::multiset::group_multiset_axioms;

    if ops.len() > 0 {
        let next = run.after(ops[0]);
        let end = run.after_all(ops);
        lemma_step_keeps(run, ops[0]);
        lemma_step_accounts(run, ops[0]);
        law_nothing_lost_or_doubled(next, ops.drop_first());
        assert forall|item: T| end.accounted().add(run.sent).count(item) == run.accounted().add(
            end.sent,
        ).count(item) by {
            assert(next.accounted().add(run.sent).count(item) == run.accounted().add(
                next.sent,
            ).count(item));
            assert(end.accounted().add(next.sent).count(item) == next.accounted().add(
                end.sent,
            ).count(item));
        }
        assert(end.accounted().add(run.sent) =~= run.accounted().add(end.sent));
    }
}

/// Whatever tasks do on a new channel, nobody waits in vain and every item that was sent is
/// accounted for; and as long as the channel is open and takes every item at once, what was received
/// and what it holds are what was sent, in the same order.
pub proof fn law_from_a_new_channel<T>(bound: Option<nat>, ops: Seq<Op<T>>)
    requires
        Run::begin(ChanView::<T>::empty(bound)).allows_all(ops),
    ensures
        ({
            let begin = Run::begin(ChanView::<T>::empty(bound));
            let end = begin.after_all(ops);
            &&& end.chan.wf()
            &&& settled(end.chan)
            &&& end.accounted() == end.sent
            &&& begin.takes_all(ops) && (forall|i: int|
                0 <= i < ops.len() ==> !(#[trigger] ops[i] is Close)) ==> end.received
                + end.chan.items == end.accepted
        }),
{
    broadcast use vstd::seq_lib::group_to_multiset_ensures;
    broadcast use vstd::multiset::group_multiset_axioms;

    let begin = Run::begin(ChanView::<T>::empty(bound));
    let end = begin.after_all(ops);
    law_nobody_waits_in_vain(begin, ops);
    law_nothing_lost_or_doubled(begin, ops);
    assert(pending(begin.chan) =~= Seq::empty());
    assert(begin.accounted() =~= Multiset::empty());
    assert(end.accounted().add(begin.sent) =~= end.accounted());
    assert(begin.accounted().add(end.sent) =~= end.sent);
    if begin.takes_all(ops) && (forall|i: int|
        0 <= i < ops.len() ==> !(#[trigger] ops[i] is Close)) {
        law_first_in_first_out(begin, ops);
        assert(begin.chan.items + end.accepted.skip(0) =~= end.accepted);
        assert(end.received.skip(0) =~= end.received);
    }
}

/// Whether one of the operations closes the channel.
pub open spec fn closes<T>(ops: Seq<Op<T>>) -> bool {
    exists|i: int| 0 <= i < ops.len() && #[trigger] ops[i] is Close
}

proof fn lemma_closed<T>(run: Run<T>, ops: Seq<Op<T>>)
    ensures
        run.after_all(ops).chan.closed == (run.chan.closed || closes(ops)),
    decreases ops.len(),
{
    if ops.len() > 0 {
        let rest = ops.drop_first();
        lemma_closed(run.after(ops[0]), rest);
        if closes(rest) {
            let i = choose|i: int| 0 <= i < rest.len() && #[trigger] rest[i] is Close;
            assert(ops[i + 1] is Close);
        }
        if closes(ops) && !(ops[0] is Close) {
            let i = choose|i: int| 0 <= i < ops.len() && #[trigger] ops[i] is Close;
            assert(rest[i - 1] is Close);
        }
    }
}

/// Whatever tasks do on a new channel, it is closed exactly where one of them has closed it.
pub proof fn law_closed_exactly_by_closing<T>(bound: Option<nat>, ops: Seq<Op<T>>)
    requires
        Run::begin(ChanView::<T>::empty(bound)).allows_all(ops),
    ensures
        Run::begin(ChanView::<T>::empty(bound)).after_all(ops).chan.closed == closes(ops),
{
    lemma_closed(Run::begin(ChanView::<T>::empty(bound)), ops);
}

} // verus!
