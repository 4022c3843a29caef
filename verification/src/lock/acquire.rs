//! Taking the lock, one access to the shared memory at a time.
use vstd::prelude::*;
use super::access::{Access, Reply};
use super::word::{is_locked, newest, UNLOCKED, WAITING, WAKING};

verus! {

/// Number of times that a thread spins before it waits.
pub const MAX_SPIN: u32 = 10;

/// Number of those times for which it stays on the processor.
pub const MAX_HINT: u32 = 3;

/// Where a thread stands that takes the lock.
#[derive(Clone, Copy, PartialEq, Eq, Debug)]
pub enum AcquirePc {
    /// About to try the lock for the first time.
    Fast,
    /// About to load the word.
    Load,
    /// About to try a lock that looked free.
    Retry,
    /// About to yield.
    Yield,
    /// About to spin on the processor.
    Hint(u32),
    /// About to link its waiter to the newest one of this word.
    Link(usize),
    /// About to publish its waiter in place of this word.
    Publish(usize),
    /// About to look whether it has been notified.
    Check,
    /// About to park.
    Park,
    /// Notified, about to make its waiter ready for another round.
    Rearm,
    /// About to take the waking bit off the word.
    Unclaim,
    /// Holds the lock.
    Acquired,
}

/// A thread that takes the lock.
#[derive(Clone, Copy, PartialEq, Eq, Debug)]
pub struct Acquire {
    /// Address of the thread's waiter.
    pub me: usize,
    /// How often it has spun since it was last woken.
    pub spin: u32,
    pub pc: AcquirePc,
}

/// The word with the waiter at `me` as the newest one.
pub open spec fn published(state: usize, me: usize) -> usize {
    (state % super::word::ALIGN + me) as usize
}

impl Acquire {
    /// The waiter has an address, and the count of spins is in range.
    pub open spec fn wf(self) -> bool {
        &&& super::word::is_address(self.me)
        &&& self.spin <= MAX_SPIN
    }

    /// What the thread does next, none where it holds the lock.
    pub open spec fn spec_access(self) -> Option<Access> {
        match self.pc {
            AcquirePc::Fast => Some(Access::SwapByte),
            AcquirePc::Load => Some(Access::Load),
            AcquirePc::Retry => Some(Access::SwapByte),
            AcquirePc::Yield => Some(Access::Yield),
            AcquirePc::Hint(n) => Some(Access::SpinHint(n)),
            AcquirePc::Link(state) => Some(
                Access::Link {
                    next: super::word::link(super::word::head(state)),
                    tail: if super::word::head(state) == 0 {
                        Some(self.me)
                    } else {
                        None
                    },
                },
            ),
            AcquirePc::Publish(state) => Some(
                Access::Exchange { current: state, new: published(state, self.me) },
            ),
            AcquirePc::Check => Some(Access::LoadNotified),
            AcquirePc::Park => Some(Access::Park),
            AcquirePc::Rearm => Some(Access::Rearm),
            AcquirePc::Unclaim => Some(Access::FetchSub),
            AcquirePc::Acquired => None,
        }
    }

    /// The thread at another point.
    pub open spec fn at(self, pc: AcquirePc) -> Acquire {
        Acquire { pc, ..self }
    }

    /// Where the thread goes from a word that it has seen: to the lock where it looks free, to
    /// another round of spinning where nobody waits yet, and else to the waiters.
    pub open spec fn seen(self, state: usize) -> Acquire {
        if !super::word::locked(state) {
            self.at(AcquirePc::Retry)
        } else if super::word::head(state) == 0 && self.spin < MAX_SPIN {
            let spin = (self.spin + 1) as u32;
            Acquire {
                spin,
                pc: if spin <= MAX_HINT {
                    AcquirePc::Hint(hints(spin))
                } else {
                    AcquirePc::Yield
                },
                ..self
            }
        } else {
            self.at(AcquirePc::Link(state))
        }
    }

    /// Whether the thread can go on from `reply`: it answers the access, and where the waking bit
    /// was to be taken off, it was set.
    pub open spec fn accepts(self, reply: Reply) -> bool {
        &&& self.spec_access() is Some
        &&& super::access::answers(reply, self.spec_access()->0)
        &&& self.pc is Unclaim ==> reply->Word_0 >= WAKING
    }

    /// Where the thread stands after `reply`.
    pub open spec fn after(self, reply: Reply) -> Acquire {
        match self.pc {
            AcquirePc::Fast => if reply->Byte_0 == UNLOCKED {
                self.at(AcquirePc::Acquired)
            } else {
                self.at(AcquirePc::Load)
            },
            AcquirePc::Load => self.seen(reply->Word_0),
            AcquirePc::Retry => if reply->Byte_0 == UNLOCKED {
                self.at(AcquirePc::Acquired)
            } else {
                self.at(AcquirePc::Yield)
            },
            AcquirePc::Yield => self.at(AcquirePc::Load),
            AcquirePc::Hint(_) => self.at(AcquirePc::Load),
            AcquirePc::Link(state) => self.at(AcquirePc::Publish(state)),
            AcquirePc::Publish(_) => if reply is Exchanged {
                self.at(AcquirePc::Check)
            } else {
                self.seen(reply->Observed_0)
            },
            AcquirePc::Check => if reply->Flag_0 {
                self.at(AcquirePc::Rearm)
            } else {
                self.at(AcquirePc::Park)
            },
            AcquirePc::Park => self.at(AcquirePc::Check),
            AcquirePc::Rearm => Acquire { spin: 0, pc: AcquirePc::Unclaim, ..self },
            AcquirePc::Unclaim => self.seen((reply->Word_0 - WAKING) as usize),
            AcquirePc::Acquired => self,
        }
    }

    /// A thread whose waiter is at `me`, before its first access.
    pub fn new(me: usize) -> (op: Acquire)
        requires
            super::word::is_address(me),
        ensures
            op == (Acquire { me, spin: 0, pc: AcquirePc::Fast }),
            op.wf(),
    {
        Acquire { me, spin: 0, pc: AcquirePc::Fast }
    }

    /// What the thread does next, none where it holds the lock.
    pub fn access(&self) -> (access: Option<Access>)
        requires
            self.wf(),
        ensures
            access == self.spec_access(),
    {
        match self.pc {
            AcquirePc::Fast => Some(Access::SwapByte),
            AcquirePc::Load => Some(Access::Load),
            AcquirePc::Retry => Some(Access::SwapByte),
            AcquirePc::Yield => Some(Access::Yield),
            AcquirePc::Hint(n) => Some(Access::SpinHint(n)),
            AcquirePc::Link(state) => {
                let next: Option<usize> = newest(state);
                let tail: Option<usize> = match next {
                    None => Some(self.me),
                    Some(_) => None,
                };
                Some(Access::Link { next, tail })
            },
            AcquirePc::Publish(state) => {
                let me: usize = self.me;
                let new: usize = (state & !WAITING) | me;
                proof {
                    super::word::lemma_bits(state);
                    assert((state & !(!511)) | me == state % 512 + me) by (bit_vector)
                        requires
                            me % 512 == 0,
                    ;
                }
                Some(Access::Exchange { current: state, new })
            },
            AcquirePc::Check => Some(Access::LoadNotified),
            AcquirePc::Park => Some(Access::Park),
            AcquirePc::Rearm => Some(Access::Rearm),
            AcquirePc::Unclaim => Some(Access::FetchSub),
            AcquirePc::Acquired => None,
        }
    }

    /// Goes on from the answer to the access.
    pub fn advance(&mut self, reply: Reply)
        requires
            old(self).wf(),
            old(self).accepts(reply),
        ensures
            *final(self) == old(self).after(reply),
            final(self).wf(),
    {
        match (self.pc, reply) {
            (AcquirePc::Fast, Reply::Byte(byte)) => {
                self.pc = if byte == UNLOCKED { AcquirePc::Acquired } else { AcquirePc::Load };
            },
            (AcquirePc::Load, Reply::Word(state)) => {
                self.look(state);
            },
            (AcquirePc::Retry, Reply::Byte(byte)) => {
                self.pc = if byte == UNLOCKED { AcquirePc::Acquired } else { AcquirePc::Yield };
            },
            (AcquirePc::Link(state), _) => {
                self.pc = AcquirePc::Publish(state);
            },
            (AcquirePc::Publish(_), Reply::Exchanged) => {
                self.pc = AcquirePc::Check;
            },
            (AcquirePc::Publish(_), Reply::Observed(state)) => {
                self.look(state);
            },
            (AcquirePc::Check, Reply::Flag(notified)) => {
                self.pc = if notified { AcquirePc::Rearm } else { AcquirePc::Park };
            },
            (AcquirePc::Park, _) => {
                self.pc = AcquirePc::Check;
            },
            (AcquirePc::Rearm, _) => {
                self.spin = 0;
                self.pc = AcquirePc::Unclaim;
            },
            (AcquirePc::Unclaim, Reply::Word(state)) => {
                self.look(state - WAKING);
            },
            (_, _) => {
                self.pc = AcquirePc::Load;
            },
        }
    }

    fn look(&mut self, state: usize)
        requires
            old(self).wf(),
        ensures
            *final(self) == old(self).seen(state),
            final(self).wf(),
    {
        if !is_locked(state) {
            self.pc = AcquirePc::Retry;
        } else if newest(state).is_none() && self.spin < MAX_SPIN {
            self.spin = self.spin + 1;
            if self.spin <= MAX_HINT {
                let spin: u32 = self.spin;
                proof {
                    assert(1u32 << 1u32 == 2 && 1u32 << 2u32 == 4 && 1u32 << 3u32 == 8)
                        by (bit_vector);
                }
                self.pc = AcquirePc::Hint(1u32 << spin);
            } else {
                self.pc = AcquirePc::Yield;
            }
        } else {
            self.pc = AcquirePc::Link(state);
        }
    }
}

/// How often a thread spins on the processor in its round `spin`: twice as often each round.
pub open spec fn hints(spin: u32) -> u32 {
    if spin == 1 {
        2
    } else if spin == 2 {
        4
    } else {
        8
    }
}

} // verus!
