//! The state of a channel: its items and the tasks that wait.
use std::task::Waker;
use vstd::prelude::*;
use super::closed::ClosedIter;
use super::error::{TryRecvError, TrySendError};
use super::model::ChanView;
use super::queue::WaiterQueue;
use super::waiter::{Entry, Waiter, WaiterState, Waiters};
use crate::waker::atomic::{AtomicWaker, Poll};

verus! {

/// What has become of the buffer of a channel.
#[derive(Clone, Copy, PartialEq, Eq, Debug, Structural)]
pub enum Buffer {
    /// Nothing has been buffered yet.
    Unallocated,
    Allocated,
    /// The channel is closed.
    Closed,
}

/// A channel: a ring of items, and the tasks that wait to send or to receive.
pub struct Chan<T> {
    /// Position of the oldest item in the ring.
    head: usize,
    /// Position behind the newest item, counted on beyond the end of the ring.
    tail: usize,
    buffer: Buffer,
    slots: Vec<Option<T>>,
    /// Twice the size of the ring, and one more where the channel is bounded.
    capacity: usize,
    senders: WaiterQueue,
    receivers: WaiterQueue,
    waiters: Waiters<T>,
}

/// What a channel of this capacity holds at most.
pub open spec fn bound_of(capacity: usize) -> nat {
    if capacity <= usize::MAX / 2 {
        capacity as nat
    } else {
        (usize::MAX / 2) as nat
    }
}

/// Where the `i`th item of a ring of size `cap` stands whose oldest item is at `head`.
spec fn place(head: int, i: int, cap: int) -> int {
    if head + i < cap {
        head + i
    } else {
        head + i - cap
    }
}

impl<T> View for Chan<T> {
    type V = ChanView<T>;

    closed spec fn view(&self) -> ChanView<T> {
        ChanView {
            items: self.items(),
            bound: self.bound(),
            closed: self.buffer is Closed,
            senders: self.senders@,
            receivers: self.receivers@,
            waiters: super::model::entries(self.waiters@),
        }
    }
}

impl<T> Chan<T> {
    spec fn cap(&self) -> int {
        (self.capacity / 2) as int
    }

    spec fn bound(&self) -> Option<nat> {
        if self.capacity % 2 == 1 {
            Some((self.capacity / 2) as nat)
        } else {
            None
        }
    }

    spec fn items(&self) -> Seq<T> {
        Seq::new(
            (self.tail - self.head) as nat,
            |i: int| self.slots@[place(self.head as int, i, self.cap())]->0,
        )
    }

    spec fn ring_wf(&self) -> bool {
        &&& self.head <= self.tail
        &&& if self.buffer is Allocated {
            &&& self.head < self.cap()
            &&& self.tail - self.head <= self.cap()
            &&& self.slots@.len() <= self.cap()
            &&& self.slots@.len() < self.cap() ==> self.tail == self.slots@.len()
            &&& forall|i: int|
                0 <= i < self.tail - self.head ==> (#[trigger] self.slots@[place(
                    self.head as int,
                    i,
                    self.cap(),
                )]) is Some
        } else {
            &&& self.head == self.tail
            &&& self.buffer is Unallocated && self.capacity % 2 == 0 ==> self.cap() == 0
        }
    }

    spec fn queues_wf(&self) -> bool {
        &&& self.senders.wf(self.waiters@)
        &&& self.receivers.wf(self.waiters@)
        &&& !(self.buffer is Closed) ==> forall|k: usize| #[trigger]
            self.waiters@.contains_key(k) && !self.senders@.contains(k)
                && !self.receivers@.contains(k) ==> self.waiters@[k].prev is None
            && self.waiters@[k].next is None
    }

    /// The parts of the channel fit together.
    pub closed spec fn inner_wf(&self) -> bool {
        self.ring_wf() && self.queues_wf()
    }

    /// What holds of every channel.
    pub open spec fn wf(&self) -> bool {
        self.inner_wf() && self@.wf()
    }

    /// Only the ring differs.
    spec fn same_waiters(&self, other: &Self) -> bool {
        &&& self.senders == other.senders
        &&& self.receivers == other.receivers
        &&& self.waiters == other.waiters
    }

    /// A channel that holds at most so many items.
    pub fn bounded(capacity: usize) -> (chan: Self)
        ensures
            chan.wf(),
            chan@ == ChanView::<T>::empty(Some(bound_of(capacity))),
            capacity <= usize::MAX / 2 ==> chan@.bound == Some(capacity as nat),
            chan@.items.len() == 0 && !chan@.closed,
    {
        let capacity: usize = if capacity <= usize::MAX / 2 {
            capacity
        } else {
            usize::MAX / 2
        };
        proof {
            let max: usize = usize::MAX;
            assert(max <= !0usize) by (bit_vector);
            assert((capacity << 1) | 1 == 2 * capacity + 1) by (bit_vector)
                requires
                    capacity <= max / 2,
                    max == !0usize,
            ;
        }
        Self::with_capacity((capacity << 1) | 1)
    }

    /// A channel that holds any number of items.
    pub fn unbounded() -> (chan: Self)
        ensures
            chan.wf(),
            chan@ == ChanView::<T>::empty(None),
            chan.spec_capacity() == 0,
    {
        Self::with_capacity(0)
    }

    fn with_capacity(capacity: usize) -> (chan: Self)
        requires
            capacity % 2 == 1 || capacity == 0,
        ensures
            chan.wf(),
            chan@ == ChanView::<T>::empty(
                if capacity % 2 == 1 {
                    Some((capacity / 2) as nat)
                } else {
                    None
                },
            ),
            chan.spec_capacity() == capacity / 2,
    {
        let chan = Self {
            head: 0,
            tail: 0,
            buffer: Buffer::Unallocated,
            slots: Vec::new(),
            capacity,
            senders: WaiterQueue::new(),
            receivers: WaiterQueue::new(),
            waiters: Waiters::new(),
        };
        proof {
            assert(chan@.waiters =~= Map::empty());
            assert(chan@.items =~= Seq::empty());
        }
        chan
    }

    /// Whether the channel holds any number of items.
    pub fn is_unbounded(&self) -> (yes: bool)
        ensures
            yes == (self@.bound is None),
    {
        let capacity: usize = self.capacity;
        proof {
            assert(capacity & 1 == capacity % 2) by (bit_vector);
        }
        self.capacity & 1 == 0
    }

    /// The size of the ring: what the channel holds at most, where it is bounded.
    pub fn capacity(&self) -> (capacity: usize)
        ensures
            self@.bound is Some ==> capacity == self@.bound->0,
            capacity == self.spec_capacity(),
    {
        let capacity: usize = self.capacity;
        proof {
            assert(capacity >> 1 == capacity / 2) by (bit_vector);
        }
        self.capacity >> 1
    }

    /// The size of the ring.
    pub closed spec fn spec_capacity(&self) -> usize {
        self.capacity / 2
    }

    /// The size of the ring after an item was sent. Without a bound, a ring that is full doubles.
    pub open spec fn capacity_after_send(&self) -> int {
        let capacity = self.spec_capacity();
        if self@.closed || self@.receivers.len() > 0 || self@.bound is Some {
            capacity as int
        } else if capacity == 0 {
            8
        } else if self@.items.len() == capacity {
            2 * capacity
        } else {
            capacity as int
        }
    }

    /// Whether an item can be sent at once: the queue of receivers can give up its first one, and
    /// the buffer can be made larger.
    pub fn can_send(&self) -> (yes: bool)
        requires
            self.wf(),
        ensures
            yes == self@.can_send(),
    {
        (self.is_closed() || !self.receivers.is_single(&self.waiters)) && (!self.is_unbounded()
            || self.size() <= usize::MAX / 4)
    }

    /// Whether an item can be received at once: the queue of senders can give up its first one.
    pub fn can_recv(&self) -> (yes: bool)
        requires
            self.wf(),
        ensures
            yes == self@.can_recv(),
    {
        self.is_closed() || !self.senders.is_single(&self.waiters)
    }

    /// How many items the channel holds.
    pub fn size(&self) -> (size: usize)
        requires
            self.wf(),
        ensures
            size == self@.items.len(),
    {
        self.tail.wrapping_sub(self.head)
    }

    /// Where a position that counts on beyond the end of the ring stands in it.
    pub fn wrap(&self, index: usize) -> (place: usize)
        requires
            self.spec_capacity() > 0,
        ensures
            place == index % self.spec_capacity(),
    {
        let capacity: usize = self.capacity();
        if capacity & (capacity - 1) == 0 {
            proof {
                super::mask::lemma_mask(index, capacity);
            }
            index & (capacity - 1)
        } else {
            index % capacity
        }
    }

    /// Whether the channel is closed.
    pub fn is_closed(&self) -> (yes: bool)
        ensures
            yes == self@.closed,
    {
        self.buffer == Buffer::Closed
    }
}

/// The ring of a channel without a bound has room for 8 items at first and doubles when an item is
/// sent to one that is full. In every other case its size stays.
pub proof fn law_how_the_ring_grows<T>(chan: &Chan<T>)
    ensures
        ({
            let size = chan.spec_capacity();
            let buffered = !chan@.closed && chan@.receivers.len() == 0;
            &&& buffered && chan@.bound is None && size == 0 ==> chan.capacity_after_send() == 8
            &&& buffered && chan@.bound is None && size > 0 && chan@.items.len() == size
                ==> chan.capacity_after_send() == 2 * size
            &&& !buffered || chan@.bound is Some || (size > 0 && chan@.items.len() != size)
                ==> chan.capacity_after_send() == size
        }),
{
}

/// A position that counts on beyond the end of a ring, less than one round.
proof fn lemma_wrap(index: int, cap: int)
    requires
        0 <= index < 2 * cap,
    ensures
        index % cap == if index < cap {
            index
        } else {
            index - cap
        },
{
    if index < cap {
        vstd::arithmetic::div_mod::lemma_small_mod(index as nat, cap as nat);
    } else {
        vstd::arithmetic::div_mod::lemma_fundamental_div_mod_converse(index, cap, 1, index - cap);
    }
}

impl<T> Chan<T> {
    /// Puts an item behind the others. There is room for it in the ring.
    fn push(&mut self, item: T)
        requires
            old(self).ring_wf(),
            old(self).buffer is Allocated,
            old(self).items().len() < old(self).cap(),
        ensures
            final(self).ring_wf(),
            final(self).buffer is Allocated,
            final(self).items() == old(self).items().push(item),
            final(self).capacity == old(self).capacity,
            final(self).same_waiters(old(self)),
    {
        let ghost before = *self;
        proof {
            lemma_wrap(self.tail as int, self.cap());
        }
        let index: usize = self.wrap(self.tail);
        self.tail = self.tail + 1;
        if index == self.slots.len() {
            self.slots.push(Some(item));
        } else {
            self.slots[index] = Some(item);
        }
        proof {
            let n = before.tail - before.head;
            assert(index == place(before.head as int, n, before.cap()));
            assert forall|i: int|
                #![trigger place(before.head as int, i, before.cap())]
                0 <= i < n implies {
                let at = place(before.head as int, i, before.cap());
                at != index && 0 <= at < before.slots@.len() && self.slots@[at]
                    == before.slots@[at]
            } by {}
            assert(self.items() =~= before.items().push(item));
        }
    }

    /// Takes the oldest item. There is one in the ring.
    fn pop(&mut self) -> (item: T)
        requires
            old(self).ring_wf(),
            old(self).buffer is Allocated,
            old(self).items().len() > 0,
        ensures
            final(self).ring_wf(),
            final(self).buffer is Allocated,
            item == old(self).items()[0],
            final(self).items() == old(self).items().drop_first(),
            final(self).capacity == old(self).capacity,
            final(self).same_waiters(old(self)),
    {
        let ghost before = *self;
        proof {
            lemma_wrap(self.head as int, self.cap());
            assert(self.slots@[place(self.head as int, 0, self.cap())] is Some);
        }
        let index: usize = self.wrap(self.head);
        let capacity: usize = self.capacity();
        let item: T = self.slots[index].take().unwrap();
        self.head = self.head + 1;
        if self.head == capacity {
            self.head = 0;
            self.tail = self.tail - capacity;
        }
        proof {
            let n = before.tail - before.head;
            assert forall|i: int|
                #![trigger place(self.head as int, i, self.cap())]
                0 <= i < n - 1 implies {
                let at = place(self.head as int, i, self.cap());
                at == place(before.head as int, i + 1, before.cap()) && self.slots@[at]
                    == before.slots@[at] && self.slots@[at] is Some
            } by {
                assert(before.slots@[place(before.head as int, i + 1, before.cap())] is Some);
            }
            assert(self.items() =~= before.items().drop_first());
        }
        item
    }

    /// Makes the ring larger, and sets it up where it has not been.
    fn grow(&mut self, new_capacity: usize)
        requires
            old(self).ring_wf(),
            !(old(self).buffer is Closed),
            old(self).items().len() < new_capacity <= usize::MAX / 2,
            old(self).capacity % 2 == 1 ==> new_capacity == old(self).capacity / 2,
        ensures
            final(self).ring_wf(),
            final(self).buffer is Allocated,
            final(self).items() == old(self).items(),
            final(self).head == 0,
            final(self).tail == old(self).items().len(),
            final(self).slots@ == old(self).items().map_values(|item: T| Some(item)),
            final(self).cap() == new_capacity,
            final(self).bound() == old(self).bound(),
            final(self).same_waiters(old(self)),
    {
        let ghost before = *self;
        let mut slots: Vec<Option<T>> = Vec::new();
        let size: usize = self.tail.wrapping_sub(self.head);
        let mut offset: usize = 0;
        while offset < size
            invariant
                offset <= size,
                size == before.items().len(),
                self.ring_wf(),
                offset < size ==> self.buffer is Allocated,
                self.buffer == before.buffer,
                self.items() == before.items().skip(offset as int),
                self.capacity == before.capacity,
                self.same_waiters(&before),
                slots@.len() == offset,
                forall|i: int|
                    0 <= i < offset ==> #[trigger] slots@[i] == Some(before.items()[i]),
            decreases size - offset,
        {
            let item: T = self.pop();
            proof {
                assert(before.items().skip(offset as int).drop_first() =~= before.items().skip(
                    offset + 1,
                ));
            }
            slots.push(Some(item));
            offset = offset + 1;
        }
        let bounded: usize = self.capacity & 1;
        proof {
            let max: usize = usize::MAX;
            let capacity = self.capacity;
            assert(max <= !0usize) by (bit_vector);
            assert(bounded == capacity % 2) by (bit_vector)
                requires
                    bounded == capacity & 1,
            ;
            assert((new_capacity << 1) | bounded == 2 * new_capacity + bounded) by (bit_vector)
                requires
                    new_capacity <= max / 2,
                    max == !0usize,
                    bounded < 2,
            ;
        }
        self.head = 0;
        self.tail = size;
        self.capacity = (new_capacity << 1) | bounded;
        self.slots = slots;
        self.buffer = Buffer::Allocated;
        proof {
            assert(self.items() =~= before.items());
            assert(self.slots@ =~= before.items().map_values(|item: T| Some(item)));
        }
    }
}

/// Relinking leaves what the waiters are but for their links.
proof fn lemma_relinked_entries<T>(
    before: Map<usize, Waiter<T>>,
    after: Map<usize, Waiter<T>>,
    keys: Seq<usize>,
)
    requires
        super::queue::relinked(before, after, keys),
    ensures
        super::model::entries(after) == super::model::entries(before),
{
    assert forall|k: usize| after.contains_key(k) == before.contains_key(k) by {
        assert(after.dom().contains(k) == before.dom().contains(k));
    }
    assert(super::model::entries(after) =~= super::model::entries(before));
}

impl<T> Chan<T> {
    /// Sends an item at once: to the first receiver that waits, or else into the buffer. The
    /// caller is to wake the waker that is handed out.
    pub fn try_send(&mut self, item: T) -> (result: Result<Option<Waker>, TrySendError<T>>)
        requires
            old(self).wf(),
            old(self)@.can_send(),
        ensures
            final(self).wf(),
            result == old(self)@.send_result(item),
            final(self)@ == old(self)@.after_send(item),
            final(self).spec_capacity() == old(self).capacity_after_send(),
    {
        if self.is_closed() {
            return Err(TrySendError::Closed(item));
        }
        let ghost before = *self;
        if let Some(key) = self.receivers.pop(&mut self.waiters) {
            let ghost nodes = self.waiters@;
            proof {
                lemma_relinked_entries(before.waiters@, nodes, before.receivers@);
                super::keys::lemma_drop_first(before.receivers@);
                assert(before@.receivers.contains(key));
                assert(before@.waiters[key] == super::model::entries(nodes)[key]);
            }
            let waiter: &mut Waiter<T> = self.waiters.get_mut(key);
            waiter.state = WaiterState::Received(item);
            let waker: Option<Waker> = waiter.atomic_waker.wake();
            proof {
                assert(self@ =~= before@.after_send(item));
                self.senders.lemma_frame(before.waiters@, self.waiters@);
                self.receivers.lemma_frame(nodes, self.waiters@);
                assert(self@.wf());
                assert(self.queues_wf());
            }
            return Ok(waker);
        }
        let size: usize = self.size();
        let capacity: usize = self.capacity();
        if self.is_unbounded() {
            if capacity == 0 {
                self.grow(8);
            } else if size == capacity {
                proof {
                    let max: usize = usize::MAX;
                    assert(max <= !0usize) by (bit_vector);
                    assert(capacity << 1 == 2 * capacity) by (bit_vector)
                        requires
                            capacity <= max / 4,
                            max == !0usize,
                    ;
                }
                self.grow(capacity << 1);
            }
        } else if size == capacity {
            return Err(TrySendError::Full(item));
        } else if self.buffer == Buffer::Unallocated {
            self.grow(capacity);
        }
        self.push(item);
        proof {
            assert(self@ =~= before@.after_send(item));
        }
        Ok(None)
    }

    /// Receives an item at once: that of the first sender that waits, or else the oldest one in
    /// the buffer. The caller is to wake the waker that is handed out.
    pub fn try_recv(&mut self) -> (result: Result<(T, Option<Waker>), TryRecvError>)
        requires
            old(self).wf(),
            old(self)@.can_recv(),
        ensures
            final(self).wf(),
            result == old(self)@.recv_result(),
            final(self)@ == old(self)@.after_recv(),
            final(self).spec_capacity() == old(self).spec_capacity(),
    {
        if self.is_closed() {
            return Err(TryRecvError::Closed);
        }
        let ghost before = *self;
        if let Some(key) = self.senders.pop(&mut self.waiters) {
            let ghost nodes = self.waiters@;
            proof {
                lemma_relinked_entries(before.waiters@, nodes, before.senders@);
                super::keys::lemma_drop_first(before.senders@);
                assert(before@.senders.contains(key));
                assert(before@.waiters[key] == super::model::entries(nodes)[key]);
            }
            let waiter: &mut Waiter<T> = self.waiters.get_mut(key);
            let mut state: WaiterState<T> = WaiterState::Sent;
            std::mem::swap(&mut waiter.state, &mut state);
            let waker: Option<Waker> = waiter.atomic_waker.wake();
            proof {
                assert(self@ =~= before@.after_recv());
                self.receivers.lemma_frame(before.waiters@, self.waiters@);
                self.senders.lemma_frame(nodes, self.waiters@);
                assert(self@.wf());
                assert(self.queues_wf());
            }
            return match state {
                WaiterState::Sending(item) => Ok((item, waker)),
                _ => Err(TryRecvError::Empty),
            };
        }
        if self.size() == 0 {
            return Err(TryRecvError::Empty);
        }
        let item: T = self.pop();
        proof {
            assert(self@ =~= before@.after_recv());
        }
        Ok((item, None))
    }

    /// Takes a waiter out of its queue, unless the channel is closed or the waiter is alone in it.
    /// Says whether it did.
    pub fn try_remove(&mut self, is_sender: bool, key: usize) -> (removed: bool)
        requires
            old(self).wf(),
            old(self)@.waiters.contains_key(key),
            !old(self)@.is_queued(!is_sender, key),
        ensures
            final(self).wf(),
            removed == old(self)@.can_leave(is_sender, key),
            final(self)@ == old(self)@.after_remove(is_sender, key),
            final(self).spec_capacity() == old(self).spec_capacity(),
    {
        if self.is_closed() {
            return false;
        }
        let ghost before = *self;
        let removed: bool = if is_sender {
            self.senders.try_remove(&mut self.waiters, key)
        } else {
            self.receivers.try_remove(&mut self.waiters, key)
        };
        proof {
            if is_sender {
                lemma_relinked_entries(before.waiters@, self.waiters@, before.senders@);
                self.receivers.lemma_frame(before.waiters@, self.waiters@);
                if removed {
                    super::keys::lemma_without(before.senders@, key);
                }
            } else {
                lemma_relinked_entries(before.waiters@, self.waiters@, before.receivers@);
                self.senders.lemma_frame(before.waiters@, self.waiters@);
                if removed {
                    super::keys::lemma_without(before.receivers@, key);
                }
            }
            assert(self@ =~= before@.after_remove(is_sender, key));
            assert(self.queues_wf());
        }
        removed
    }

    /// Gives up waiting to send, though nobody else waits. Hands out the waiter's state, with the
    /// item where it has not been taken.
    pub fn cancel_sender(&mut self, key: usize) -> (state: WaiterState<T>)
        requires
            old(self).wf(),
            old(self)@.waiters.contains_key(key),
            super::future::is_sender(old(self)@.waiters[key]),
        ensures
            final(self).wf(),
            state == old(self)@.waiters[key].state,
            final(self)@ == old(self)@.after_cancel(key),
            final(self).spec_capacity() == old(self).spec_capacity(),
    {
        let ghost before = *self;
        if !self.is_closed() {
            let _removed: bool = self.senders.withdraw(&mut self.waiters, key);
            proof {
                lemma_relinked_entries(before.waiters@, self.waiters@, before.senders@);
                self.receivers.lemma_frame(before.waiters@, self.waiters@);
                if before.senders@.contains(key) {
                    super::keys::lemma_without(before.senders@, key);
                }
                assert(self@ =~= (ChanView { senders: self@.senders, ..before@ }));
                assert(self.queues_wf());
            }
        }
        let state: WaiterState<T> = self.take_waiter(key);
        proof {
            assert(self@ =~= before@.after_cancel(key));
        }
        state
    }

    /// Closes the channel: drops its items, and hands out those who wait, senders first. They have
    /// not been told yet.
    pub fn close(&mut self) -> (waiting: WaiterQueue)
        requires
            old(self).wf(),
        ensures
            final(self).wf(),
            final(self)@ == old(self)@.after_close(),
            waiting@ == old(self)@.senders + old(self)@.receivers,
            waiting.wf(final(self).nodes()),
            final(self).spec_capacity() == old(self).spec_capacity(),
    {
        let ghost before = *self;
        if !self.is_closed() {
            while self.buffer == Buffer::Allocated && self.size() != 0
                invariant
                    self.ring_wf(),
                    self.wf(),
                    !(self.buffer is Closed),
                    self.capacity == before.capacity,
                    self.same_waiters(&before),
                decreases self.items().len(),
            {
                let ghost round = *self;
                let _item: T = self.pop();
                proof {
                    assert(self@ =~= (ChanView { items: round@.items.drop_first(), ..round@ }));
                }
            }
            self.buffer = Buffer::Closed;
        }
        let mut waiting: WaiterQueue = WaiterQueue::new();
        waiting.consume(&mut self.senders, &mut self.waiters);
        let ghost nodes = self.waiters@;
        proof {
            lemma_relinked_entries(
                before.waiters@,
                nodes,
                Seq::<usize>::empty() + before.senders@,
            );
            assert(Seq::<usize>::empty() + before.senders@ =~= before.senders@);
            self.receivers.lemma_frame(before.waiters@, nodes);
        }
        waiting.consume(&mut self.receivers, &mut self.waiters);
        proof {
            lemma_relinked_entries(nodes, self.waiters@, before.senders@ + before.receivers@);
            assert(self@.items =~= Seq::empty());
            assert(self@ =~= before@.after_close());
        }
        waiting
    }

    /// Lets a task wait: to send an item, or for one. The waiter stays under the key that is
    /// handed out until it is taken out.
    pub fn enqueue(&mut self, state: WaiterState<T>, waker: Waker) -> (key: usize)
        requires
            old(self).wf(),
            !old(self)@.closed,
            state is Sending || state is Receiving,
        ensures
            final(self).wf(),
            !old(self)@.waiters.contains_key(key),
            final(self)@ == old(self)@.after_enqueue(
                key,
                Entry {
                    state,
                    waker: AtomicWaker {
                        state: crate::waker::machine::WAKER_WAITING,
                        waker: Some(waker),
                    },
                },
            ),
            final(self).spec_capacity() == old(self).spec_capacity(),
    {
        let ghost before = *self;
        let is_sender: bool = match &state {
            WaiterState::Sending(_) => true,
            _ => false,
        };
        let mut waiter: Waiter<T> = Waiter::new();
        waiter.state = state;
        waiter.atomic_waker.prepare(waker);
        let ghost entry = waiter.entry();
        let key: usize = self.waiters.insert(waiter);
        let ghost nodes = self.waiters@;
        proof {
            assert(!before@.senders.contains(key));
            assert(!before@.receivers.contains(key));
            self.senders.lemma_frame(before.waiters@, nodes);
            self.receivers.lemma_frame(before.waiters@, nodes);
        }
        if is_sender {
            self.senders.push(&mut self.waiters, key);
            proof {
                lemma_relinked_entries(nodes, self.waiters@, before.senders@.push(key));
                super::keys::lemma_push(before.senders@, key);
                self.receivers.lemma_frame(nodes, self.waiters@);
            }
        } else {
            self.receivers.push(&mut self.waiters, key);
            proof {
                lemma_relinked_entries(nodes, self.waiters@, before.receivers@.push(key));
                super::keys::lemma_push(before.receivers@, key);
                self.senders.lemma_frame(nodes, self.waiters@);
            }
        }
        proof {
            assert(super::model::entries(nodes) =~= before@.waiters.insert(key, entry));
            assert(self@ =~= before@.after_enqueue(key, entry));
            assert(self.queues_wf());
        }
        key
    }

    /// Asks whether the task of a waiter has been woken. Where it has not, the waiter keeps the
    /// new waker, or the old one where it wakes the same task.
    pub fn poll_waiter(&mut self, key: usize, waker: Waker) -> (poll: Poll<()>)
        requires
            old(self).wf(),
            old(self)@.waiters.contains_key(key),
            old(self)@.waiters[key].waker.waiting() || old(self)@.waiters[key].waker.notified(),
        ensures
            final(self).wf(),
            old(self)@.waiters[key].waker.notified() ==> poll is Ready && final(self)@
                == old(self)@,
            old(self)@.waiters[key].waker.waiting() ==> poll is Pending && old(self)@.registers(
                final(self)@,
                key,
                waker,
            ),
            final(self).spec_capacity() == old(self).spec_capacity(),
    {
        let ghost before = *self;
        let poll: Poll<()> = self.waiters.get_mut(key).atomic_waker.poll(waker);
        proof {
            self.senders.lemma_frame(before.waiters@, self.waiters@);
            self.receivers.lemma_frame(before.waiters@, self.waiters@);
            let slot = before.waiters@[key].atomic_waker;
            if slot.waiting() && self.waiters@[key].atomic_waker == (AtomicWaker {
                waker: Some(waker),
                ..slot
            }) {
                assert(self@ =~= before@.with_waker(key, waker));
            } else {
                assert(self.waiters@ =~= before.waiters@);
                assert(self@ =~= before@);
            }
        }
        poll
    }

    /// Takes a waiter out that is in no queue, and tells what has become of it.
    pub fn take_waiter(&mut self, key: usize) -> (state: WaiterState<T>)
        requires
            old(self).wf(),
            old(self)@.waiters.contains_key(key),
            !old(self)@.is_queued(true, key),
            !old(self)@.is_queued(false, key),
        ensures
            final(self).wf(),
            state == old(self)@.waiters[key].state,
            final(self)@ == old(self)@.after_take(key),
            final(self).spec_capacity() == old(self).spec_capacity(),
    {
        let ghost before = *self;
        let waiter: Waiter<T> = self.waiters.remove(key);
        proof {
            self.senders.lemma_frame(before.waiters@, self.waiters@);
            self.receivers.lemma_frame(before.waiters@, self.waiters@);
            assert(self@ =~= before@.after_take(key));
        }
        waiter.state
    }

    /// Tells those who waited when the channel was closed, and hands out their wakers, which the
    /// caller is to wake. A sender gets its item back.
    pub fn tell_closed(&mut self, waiting: WaiterQueue) -> (wakers: Vec<Waker>)
        requires
            old(self).wf(),
            old(self)@.closed,
            waiting.wf(old(self).nodes()),
            forall|k: usize| #[trigger]
                waiting@.contains(k) ==> {
                    &&& old(self)@.waiters[k].state is Sending
                        || old(self)@.waiters[k].state is Receiving
                    &&& old(self)@.waiters[k].waker.prepared()
                },
        ensures
            final(self).wf(),
            final(self)@ == (ChanView {
                waiters: super::closed::closed_entries(old(self)@.waiters, waiting@),
                ..old(self)@
            }),
            wakers@ == super::closed::wakers_of(old(self)@.waiters, waiting@),
            final(self).spec_capacity() == old(self).spec_capacity(),
    {
        let ghost before = *self;
        let ghost keys = waiting@;
        let ghost entries = before@.waiters;
        let mut wakers: Vec<Waker> = Vec::new();
        proof {
            assert forall|i: int| 0 <= i < keys.len() implies super::closed::unanswered(
                #[trigger] self.waiters@[keys[i]],
            ) by {
                assert(keys.contains(keys[i]));
                assert(entries.contains_key(keys[i]));
            }
            assert(super::closed::closed_nodes(before.waiters@, keys.take(0))
                =~= before.waiters@);
            assert(keys.skip(0) =~= keys);
            assert(wakers@ + super::closed::wakers_of(entries, keys)
                =~= super::closed::wakers_of(entries, keys));
        }
        let mut iter: ClosedIter = waiting.into_iter();
        let ghost mut n: int = 0;
        loop
            invariant
                0 <= n <= keys.len(),
                keys.no_duplicates(),
                iter.rest@ == keys.skip(n),
                iter.wf(self.waiters@),
                self.waiters@ == super::closed::closed_nodes(before.waiters@, keys.take(n)),
                *self == (Chan { waiters: self.waiters, ..before }),
                entries == super::model::entries(before.waiters@),
                wakers@ + super::closed::wakers_of(entries, iter.rest@)
                    == super::closed::wakers_of(entries, keys),
                forall|i: int| 0 <= i < keys.len() ==> before.waiters@.contains_key(
                    #[trigger] keys[i],
                ),
            ensures
                n == keys.len(),
                wakers@ == super::closed::wakers_of(entries, keys),
                self.waiters@ == super::closed::closed_nodes(before.waiters@, keys.take(n)),
                *self == (Chan { waiters: self.waiters, ..before }),
            decreases keys.len() - n,
        {
            let ghost rest = iter.rest@;
            let ghost nodes = self.waiters@;
            let ghost handed = wakers@;
            let next: Option<Waker> = iter.next(&mut self.waiters);
            proof {
                let m = rest.len() - iter.rest@.len();
                super::closed::lemma_told_more(before.waiters@, keys, n, m);
                assert(rest.skip(m) =~= keys.skip(n + m));
                super::closed::lemma_wakers_untold(before.waiters@, keys, n, n);
                super::closed::lemma_wakers_untold(before.waiters@, keys, n, n + m);
                n = n + m;
            }
            match next {
                Some(waker) => {
                    wakers.push(waker);
                    proof {
                        assert(wakers@ =~= handed + seq![waker]);
                        assert(wakers@ + super::closed::wakers_of(entries, iter.rest@) =~= handed
                            + (seq![waker] + super::closed::wakers_of(entries, iter.rest@)));
                    }
                },
                None => {
                    proof {
                        assert(handed + (Seq::<Waker>::empty() + super::closed::wakers_of(
                            entries,
                            iter.rest@,
                        )) =~= handed);
                    }
                    break;
                },
            }
        }
        proof {
            assert(keys.take(keys.len() as int) =~= keys);
            assert(self@ =~= (ChanView {
                waiters: super::closed::closed_entries(before@.waiters, keys),
                ..before@
            }));
        }
        wakers
    }

    /// The waiters, with their links.
    pub closed spec fn nodes(&self) -> Map<usize, Waiter<T>> {
        self.waiters@
    }
}

} // verus!
