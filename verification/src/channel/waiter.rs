//! The tasks that wait on a channel.
use vstd::prelude::*;
use crate::waker::atomic::AtomicWaker;

verus! {

/// What a task waits for, or what has become of it.
#[derive(PartialEq, Eq, Debug)]
pub enum WaiterState<T> {
    /// The channel was closed; a sender gets its item back.
    Closed(Option<T>),
    /// Waits for somebody to take the item.
    Sending(T),
    /// The item has been taken.
    Sent,
    /// Waits for an item.
    Receiving,
    /// Has been given the item.
    Received(T),
}

impl<T> WaiterState<T> {
    /// The state after the channel has been closed.
    pub open spec fn closed(self) -> WaiterState<T> {
        match self {
            WaiterState::Sending(item) => WaiterState::Closed(Some(item)),
            _ => WaiterState::Closed(None),
        }
    }
}

/// A task that waits, and its links in a queue.
pub struct Waiter<T> {
    pub prev: Option<usize>,
    pub next: Option<usize>,
    /// The last waiter of the queue, where this is the first.
    pub tail: Option<usize>,
    pub state: WaiterState<T>,
    pub atomic_waker: AtomicWaker,
}

impl<T> Waiter<T> {
    /// A waiter in no queue, without a task.
    pub fn new() -> (waiter: Self)
        ensures
            waiter == (Waiter {
                prev: None,
                next: None,
                tail: None,
                state: WaiterState::<T>::Closed(None),
                atomic_waker: AtomicWaker {
                    state: crate::waker::machine::WAKER_EMPTY,
                    waker: None,
                },
            }),
    {
        Self {
            prev: None,
            next: None,
            tail: None,
            state: WaiterState::Closed(None),
            atomic_waker: AtomicWaker::new(),
        }
    }

    /// What the waiter is but for its links.
    pub open spec fn entry(self) -> Entry<T> {
        Entry { state: self.state, waker: self.atomic_waker }
    }
}

/// A waiter but for its links.
pub ghost struct Entry<T> {
    pub state: WaiterState<T>,
    pub waker: AtomicWaker,
}

impl<T> Entry<T> {
    /// The waiter after its channel has been closed and its task woken.
    pub open spec fn closed(self) -> Entry<T> {
        Entry { state: self.state.closed(), waker: self.waker.woken() }
    }
}

/// The waiters of a channel, each under a key.
pub struct Waiters<T> {
    slots: Vec<Option<Waiter<T>>>,
}

impl<T> View for Waiters<T> {
    type V = Map<usize, Waiter<T>>;

    closed spec fn view(&self) -> Map<usize, Waiter<T>> {
        Map::new(
            |key: usize| key < self.slots@.len() && self.slots@[key as int] is Some,
            |key: usize| self.slots@[key as int]->0,
        )
    }
}

impl<T> Waiters<T> {
    /// No waiters.
    pub fn new() -> (waiters: Self)
        ensures
            waiters@ == Map::<usize, Waiter<T>>::empty(),
    {
        let waiters = Self { slots: Vec::new() };
        assert(waiters@ =~= Map::<usize, Waiter<T>>::empty());
        waiters
    }

    /// Adds a waiter under a key that is not in use.
    pub fn insert(&mut self, waiter: Waiter<T>) -> (key: usize)
        ensures
            !old(self)@.contains_key(key),
            final(self)@ == old(self)@.insert(key, waiter),
    {
        let ghost before = self@;
        let mut key: usize = 0;
        while key < self.slots.len() && self.slots[key].is_some()
            invariant
                key <= self.slots@.len(),
                *self == *old(self),
            decreases self.slots@.len() - key,
        {
            key = key + 1;
        }
        if key < self.slots.len() {
            self.slots[key] = Some(waiter);
        } else {
            self.slots.push(Some(waiter));
        }
        assert(self@ =~= before.insert(key, waiter));
        key
    }

    /// Takes the waiter under a key out.
    pub fn remove(&mut self, key: usize) -> (waiter: Waiter<T>)
        requires
            old(self)@.contains_key(key),
        ensures
            waiter == old(self)@[key],
            final(self)@ == old(self)@.remove(key),
    {
        let ghost before = self@;
        let waiter: Waiter<T> = self.slots[key].take().unwrap();
        assert(self@ =~= before.remove(key));
        waiter
    }

    /// The waiter under a key.
    pub fn get(&self, key: usize) -> (waiter: &Waiter<T>)
        requires
            self@.contains_key(key),
        ensures
            *waiter == self@[key],
    {
        self.slots[key].as_ref().unwrap()
    }

    /// The waiter under a key, to be changed.
    pub fn get_mut(&mut self, key: usize) -> (waiter: &mut Waiter<T>)
        requires
            old(self)@.contains_key(key),
        ensures
            *waiter == old(self)@[key],
            final(self)@ == old(self)@.insert(key, *final(waiter)),
    {
        let ghost before = self@;
        let ghost slots = self.slots@;
        let waiter: &mut Waiter<T> = self.slots[key].as_mut().unwrap();
        assert(after_borrow(self).slots@ == slots.update(key as int, Some(*final(waiter))));
        waiter
    }
}

} // verus!
