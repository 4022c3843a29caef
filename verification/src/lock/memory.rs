//! The memory that the threads of a lock share.
use vstd::prelude::*;
use super::access::{Access, Reply};
use super::word::WAKING;

verus! {

/// The links and the flag of one waiting thread.
#[derive(Clone, Copy, PartialEq, Eq, Debug)]
pub struct LockWaiter {
    /// The next newer waiter.
    pub prev: Option<usize>,
    /// The next older waiter.
    pub next: Option<usize>,
    /// The oldest waiter, where it is known here.
    pub tail: Option<usize>,
    /// Whether the thread has been woken.
    pub notified: bool,
}

impl LockWaiter {
    /// Whether the waiter has no newer one and has not been woken.
    pub open spec fn fresh(self) -> bool {
        self.prev is None && !self.notified
    }

    /// A waiter that is in no list and has not been woken.
    pub fn new() -> (waiter: LockWaiter)
        ensures
            waiter == (LockWaiter { prev: None, next: None, tail: None, notified: false }),
    {
        LockWaiter { prev: None, next: None, tail: None, notified: false }
    }
}

/// What the threads share: the word of the lock, and their waiters by address.
pub ghost struct Shared {
    pub word: usize,
    pub nodes: Map<usize, LockWaiter>,
}

impl Shared {
    /// The memory with another waiter at `addr`.
    pub open spec fn set(self, addr: usize, node: LockWaiter) -> Shared {
        Shared { nodes: self.nodes.insert(addr, node), ..self }
    }

    /// The memory after an access by the thread whose waiter is at `me`. `exchanged` says whether
    /// an `Exchange` succeeded.
    pub open spec fn after(self, me: usize, access: Access, exchanged: bool) -> Shared {
        match access {
            Access::SwapByte => Shared { word: super::word::with_byte_locked(self.word), ..self },
            Access::StoreByte => Shared {
                word: super::word::with_byte_unlocked(self.word),
                ..self
            },
            Access::Exchange { new, .. } => if exchanged {
                Shared { word: new, ..self }
            } else {
                self
            },
            Access::FetchSub => Shared { word: (self.word - WAKING) as usize, ..self },
            Access::Link { next, tail } => self.set(
                me,
                LockWaiter { next, tail, ..self.nodes[me] },
            ),
            Access::Rearm => self.set(
                me,
                LockWaiter { prev: None, notified: false, ..self.nodes[me] },
            ),
            Access::SetPrev(addr, prev) => self.set(
                addr,
                LockWaiter { prev: Some(prev), ..self.nodes[addr] },
            ),
            Access::SetTail(addr, tail) => self.set(
                addr,
                LockWaiter { tail: Some(tail), ..self.nodes[addr] },
            ),
            Access::Notify(addr) => self.set(
                addr,
                LockWaiter { notified: true, ..self.nodes[addr] },
            ),
            _ => self,
        }
    }

    /// The answer to an access by the thread whose waiter is at `me`.
    pub open spec fn reply(self, me: usize, access: Access, exchanged: bool) -> Reply {
        match access {
            Access::SwapByte => Reply::Byte(super::word::byte(self.word)),
            Access::Load => Reply::Word(self.word),
            Access::Exchange { .. } => if exchanged {
                Reply::Exchanged
            } else {
                Reply::Observed(self.word)
            },
            Access::FetchSub => Reply::Word(self.word),
            Access::LoadNotified => Reply::Flag(self.nodes[me].notified),
            Access::GetNext(addr) => Reply::Address(self.nodes[addr].next),
            Access::GetPrev(addr) => Reply::Address(self.nodes[addr].prev),
            Access::GetTail(addr) => Reply::Address(self.nodes[addr].tail),
            _ => Reply::Done,
        }
    }

    /// Whether the memory allows the access: the waiters that it names exist, and an `Exchange`
    /// succeeds only where the word is the one it expects.
    pub open spec fn allows(self, me: usize, access: Access, exchanged: bool) -> bool {
        &&& self.nodes.contains_key(me)
        &&& match access {
            Access::Exchange { current, .. } => exchanged ==> self.word == current,
            Access::FetchSub => self.word >= WAKING,
            Access::GetNext(addr) => self.nodes.contains_key(addr),
            Access::GetPrev(addr) => self.nodes.contains_key(addr),
            Access::GetTail(addr) => self.nodes.contains_key(addr),
            Access::SetPrev(addr, _) => self.nodes.contains_key(addr),
            Access::SetTail(addr, _) => self.nodes.contains_key(addr),
            Access::Notify(addr) => self.nodes.contains_key(addr),
            _ => true,
        }
    }
}

} // verus!
