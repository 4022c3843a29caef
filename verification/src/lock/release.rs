//! Leaving the lock, one access to the shared memory at a time.
//!
//! A thread that leaves the lock wakes the oldest waiter, unless there is none, or another thread
//! is already waking it, or the lock has been taken again. Waiters push themselves onto the front
//! of a list whose links lead to older ones only. The thread that wakes first walks the list to
//! the oldest waiter, lays the links to newer ones on its way, and leaves the result with the
//! newest waiter so that nobody has to walk that part again.
use vstd::prelude::*;
use super::access::{Access, Reply};
use super::word::{is_locked, needs_wake, newest, LOCKED, WAKING};

verus! {

/// Where a thread stands that leaves the lock. `state` is the word that it has last seen.
#[derive(Clone, Copy, PartialEq, Eq, Debug)]
pub enum ReleasePc {
    /// About to unlock.
    Unlock,
    /// About to look whether somebody waits.
    Peek,
    /// About to load the word that it wants to claim.
    Reload,
    /// About to set the waking bit.
    Claim { state: usize },
    /// About to ask the newest waiter for the oldest one.
    FindTail { state: usize },
    /// About to go from `current` to the next older waiter.
    Walk { state: usize, current: usize },
    /// About to lay the link from `next` back to `current`.
    Back { state: usize, current: usize, next: usize },
    /// About to ask `current` for the oldest waiter.
    Probe { state: usize, current: usize },
    /// About to leave the oldest waiter with the newest one.
    Cache { state: usize, tail: usize },
    /// About to give up the waking bit, for the lock has been taken again.
    Abandon { state: usize },
    /// About to ask the oldest waiter for the next newer one.
    Unlink { state: usize, tail: usize },
    /// About to make `prev` the oldest waiter.
    Shorten { state: usize, tail: usize, prev: usize },
    /// About to take the only waiter off the word.
    Clear { state: usize, tail: usize },
    /// About to notify the waiter that it has taken off the list.
    Notify { tail: usize },
    /// Has left the lock.
    Done,
}

/// A thread that leaves the lock.
#[derive(Clone, Copy, PartialEq, Eq, Debug)]
pub struct Release {
    pub pc: ReleasePc,
}

/// The word without waiters, with the waking bit.
pub open spec fn cleared(state: usize) -> usize {
    (state % 2 + WAKING) as usize
}

impl Release {
    /// The words that the thread keeps say that somebody waits, and after the claim that the
    /// thread is waking.
    pub open spec fn wf(self) -> bool {
        match self.pc {
            ReleasePc::Claim { state } => super::word::wake_needed(state),
            ReleasePc::FindTail { state } => claimed(state),
            ReleasePc::Walk { state, .. } => claimed(state),
            ReleasePc::Back { state, .. } => claimed(state),
            ReleasePc::Probe { state, .. } => claimed(state),
            ReleasePc::Cache { state, .. } => claimed(state),
            ReleasePc::Abandon { state } => claimed(state) && super::word::locked(state),
            ReleasePc::Unlink { state, .. } => claimed(state) && !super::word::locked(state),
            ReleasePc::Shorten { state, .. } => claimed(state) && !super::word::locked(state),
            ReleasePc::Clear { state, .. } => super::word::waking(state),
            _ => true,
        }
    }

    /// What the thread does next, none where it has left the lock.
    pub open spec fn spec_access(self) -> Option<Access> {
        match self.pc {
            ReleasePc::Unlock => Some(Access::StoreByte),
            ReleasePc::Peek => Some(Access::Load),
            ReleasePc::Reload => Some(Access::Load),
            ReleasePc::Claim { state } => Some(
                Access::Exchange { current: state, new: (state + WAKING) as usize },
            ),
            ReleasePc::FindTail { state } => Some(Access::GetTail(super::word::head(state))),
            ReleasePc::Walk { current, .. } => Some(Access::GetNext(current)),
            ReleasePc::Back { current, next, .. } => Some(Access::SetPrev(next, current)),
            ReleasePc::Probe { current, .. } => Some(Access::GetTail(current)),
            ReleasePc::Cache { state, tail } => Some(
                Access::SetTail(super::word::head(state), tail),
            ),
            ReleasePc::Abandon { state } => Some(
                Access::Exchange { current: state, new: (state - WAKING) as usize },
            ),
            ReleasePc::Unlink { tail, .. } => Some(Access::GetPrev(tail)),
            ReleasePc::Shorten { state, prev, .. } => Some(
                Access::SetTail(super::word::head(state), prev),
            ),
            ReleasePc::Clear { state, .. } => Some(
                Access::Exchange { current: state, new: cleared(state) },
            ),
            ReleasePc::Notify { tail } => Some(Access::Notify(tail)),
            ReleasePc::Done => None,
        }
    }

    /// Whether the thread can go on from `reply`: it answers the access, a walk does not run off
    /// the list, and while the thread is waking the word keeps the waking bit and a waiter.
    pub open spec fn accepts(self, reply: Reply) -> bool {
        &&& self.spec_access() is Some
        &&& super::access::answers(reply, self.spec_access()->0)
        &&& self.pc is Walk ==> reply->Address_0 is Some
        &&& self.pc is Abandon && reply is Observed ==> claimed(reply->Observed_0)
        &&& self.pc is Clear && reply is Observed ==> super::word::waking(reply->Observed_0)
    }

    /// Where the thread stands after `reply`.
    pub open spec fn after(self, reply: Reply) -> Release {
        let pc = match self.pc {
            ReleasePc::Unlock => ReleasePc::Peek,
            ReleasePc::Peek => if super::word::wake_needed(reply->Word_0) {
                ReleasePc::Reload
            } else {
                ReleasePc::Done
            },
            ReleasePc::Reload => wanted(reply->Word_0),
            ReleasePc::Claim { state } => if reply is Exchanged {
                ReleasePc::FindTail { state: (state + WAKING) as usize }
            } else {
                wanted(reply->Observed_0)
            },
            ReleasePc::FindTail { state } => match reply->Address_0 {
                Some(tail) => found(state, tail),
                None => ReleasePc::Walk { state, current: super::word::head(state) },
            },
            ReleasePc::Walk { state, current } => ReleasePc::Back {
                state,
                current,
                next: reply->Address_0->0,
            },
            ReleasePc::Back { state, next, .. } => ReleasePc::Probe { state, current: next },
            ReleasePc::Probe { state, current } => match reply->Address_0 {
                Some(tail) => ReleasePc::Cache { state, tail },
                None => ReleasePc::Walk { state, current },
            },
            ReleasePc::Cache { state, tail } => found(state, tail),
            ReleasePc::Abandon { .. } => if reply is Exchanged {
                ReleasePc::Done
            } else {
                ReleasePc::FindTail { state: reply->Observed_0 }
            },
            ReleasePc::Unlink { state, tail } => match reply->Address_0 {
                Some(prev) => ReleasePc::Shorten { state, tail, prev },
                None => ReleasePc::Clear { state, tail },
            },
            ReleasePc::Shorten { tail, .. } => ReleasePc::Notify { tail },
            ReleasePc::Clear { tail, .. } => if reply is Exchanged {
                ReleasePc::Notify { tail }
            } else if super::word::head(reply->Observed_0) != 0 {
                ReleasePc::FindTail { state: reply->Observed_0 }
            } else {
                ReleasePc::Clear { state: reply->Observed_0, tail }
            },
            ReleasePc::Notify { .. } => ReleasePc::Done,
            ReleasePc::Done => ReleasePc::Done,
        };
        Release { pc }
    }

    /// A thread that holds the lock, before it leaves it.
    pub fn new() -> (op: Release)
        ensures
            op == (Release { pc: ReleasePc::Unlock }),
            op.wf(),
    {
        Release { pc: ReleasePc::Unlock }
    }

    /// What the thread does next, none where it has left the lock.
    pub fn access(&self) -> (access: Option<Access>)
        requires
            self.wf(),
        ensures
            access == self.spec_access(),
    {
        match self.pc {
            ReleasePc::Unlock => Some(Access::StoreByte),
            ReleasePc::Peek => Some(Access::Load),
            ReleasePc::Reload => Some(Access::Load),
            ReleasePc::Claim { state } => {
                proof {
                    super::word::lemma_bits(state);
                }
                Some(Access::Exchange { current: state, new: state | WAKING })
            },
            ReleasePc::FindTail { state } => Some(Access::GetTail(front(state))),
            ReleasePc::Walk { current, .. } => Some(Access::GetNext(current)),
            ReleasePc::Back { current, next, .. } => Some(Access::SetPrev(next, current)),
            ReleasePc::Probe { current, .. } => Some(Access::GetTail(current)),
            ReleasePc::Cache { state, tail } => Some(Access::SetTail(front(state), tail)),
            ReleasePc::Abandon { state } => {
                proof {
                    super::word::lemma_bits(state);
                }
                Some(Access::Exchange { current: state, new: state & !WAKING })
            },
            ReleasePc::Unlink { tail, .. } => Some(Access::GetPrev(tail)),
            ReleasePc::Shorten { state, prev, .. } => Some(Access::SetTail(front(state), prev)),
            ReleasePc::Clear { state, .. } => {
                proof {
                    assert((state & 1) | 256 == state % 2 + 256) by (bit_vector);
                }
                Some(Access::Exchange { current: state, new: (state & (LOCKED as usize)) | WAKING })
            },
            ReleasePc::Notify { tail } => Some(Access::Notify(tail)),
            ReleasePc::Done => None,
        }
    }

    /// Goes on from the answer to the access.
    pub fn advance(&mut self, reply: Reply)
        requires
            old(self).wf(),
            old(self).accepts(reply),
        ensures
            *final(self) == old(self).after(reply),
            final(self).wf(),
    {
        self.pc = match (self.pc, reply) {
            (ReleasePc::Unlock, _) => ReleasePc::Peek,
            (ReleasePc::Peek, Reply::Word(state)) => if needs_wake(state) {
                ReleasePc::Reload
            } else {
                ReleasePc::Done
            },
            (ReleasePc::Reload, Reply::Word(state)) => want(state),
            (ReleasePc::Claim { state }, Reply::Exchanged) => {
                proof {
                    super::word::lemma_bits(state);
                    lemma_claim(state);
                }
                ReleasePc::FindTail { state: state | WAKING }
            },
            (ReleasePc::Claim { .. }, Reply::Observed(state)) => want(state),
            (ReleasePc::FindTail { state }, Reply::Address(Some(tail))) => find(state, tail),
            (ReleasePc::FindTail { state }, _) => ReleasePc::Walk { state, current: front(state) },
            (ReleasePc::Walk { state, current }, Reply::Address(Some(next))) => {
                ReleasePc::Back { state, current, next }
            },
            (ReleasePc::Back { state, next, .. }, _) => ReleasePc::Probe { state, current: next },
            (ReleasePc::Probe { state, .. }, Reply::Address(Some(tail))) => {
                ReleasePc::Cache { state, tail }
            },
            (ReleasePc::Probe { state, current }, _) => ReleasePc::Walk { state, current },
            (ReleasePc::Cache { state, tail }, _) => find(state, tail),
            (ReleasePc::Abandon { .. }, Reply::Observed(state)) => ReleasePc::FindTail { state },
            (ReleasePc::Unlink { state, tail }, Reply::Address(Some(prev))) => {
                ReleasePc::Shorten { state, tail, prev }
            },
            (ReleasePc::Unlink { state, tail }, _) => ReleasePc::Clear { state, tail },
            (ReleasePc::Shorten { tail, .. }, _) => ReleasePc::Notify { tail },
            (ReleasePc::Clear { tail, .. }, Reply::Exchanged) => ReleasePc::Notify { tail },
            (ReleasePc::Clear { tail, .. }, Reply::Observed(state)) => {
                if newest(state).is_some() {
                    ReleasePc::FindTail { state }
                } else {
                    ReleasePc::Clear { state, tail }
                }
            },
            (_, _) => ReleasePc::Done,
        };
    }
}

/// A word seen by a thread that is waking: it has the waking bit and a waiter.
pub open spec fn claimed(state: usize) -> bool {
    super::word::waking(state) && super::word::head(state) != 0
}

/// Where the thread goes from a word that it would claim.
pub open spec fn wanted(state: usize) -> ReleasePc {
    if super::word::wake_needed(state) {
        ReleasePc::Claim { state }
    } else {
        ReleasePc::Done
    }
}

/// Where the thread goes once it knows the oldest waiter: it takes it off, unless the lock has
/// been taken again, for then the thread that holds it will wake.
pub open spec fn found(state: usize, tail: usize) -> ReleasePc {
    if super::word::locked(state) {
        ReleasePc::Abandon { state }
    } else {
        ReleasePc::Unlink { state, tail }
    }
}

/// Setting the waking bit leaves the other parts of the word.
pub proof fn lemma_claim(state: usize)
    requires
        !super::word::waking(state),
    ensures
        state + WAKING <= usize::MAX,
        super::word::waking((state + WAKING) as usize),
        super::word::head((state + WAKING) as usize) == super::word::head(state),
        super::word::locked((state + WAKING) as usize) == super::word::locked(state),
{
    super::word::lemma_bits(state);
    assert((state / 256) % 2 == 0 ==> {
        &&& ((state | 256) / 256) % 2 == 1
        &&& (state | 256) - (state | 256) % 512 == state - state % 512
        &&& (state | 256) % 2 == state % 2
    }) by (bit_vector);
}

fn want(state: usize) -> (pc: ReleasePc)
    ensures
        pc == wanted(state),
{
    if needs_wake(state) {
        ReleasePc::Claim { state }
    } else {
        ReleasePc::Done
    }
}

fn find(state: usize, tail: usize) -> (pc: ReleasePc)
    ensures
        pc == found(state, tail),
{
    if is_locked(state) {
        ReleasePc::Abandon { state }
    } else {
        ReleasePc::Unlink { state, tail }
    }
}

fn front(state: usize) -> (addr: usize)
    requires
        super::word::head(state) != 0,
    ensures
        addr == super::word::head(state),
{
    newest(state).unwrap()
}

} // verus!
