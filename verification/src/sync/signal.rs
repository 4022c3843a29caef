//! A signal that one thread gives and another one waits for.
use vstd::prelude::*;
use super::backoff::{Backoff, Target};
use super::signal_machine::{
    Notify, NotifyPc, SignalAccess, SignalReply, Wait, WaitPc, EMPTY,
};

verus! {

/// What a thread does next that sleeps for a permit.
#[derive(Clone, Copy, PartialEq, Eq, Debug)]
pub enum Sleep {
    /// It has taken a permit.
    Acquired,
    /// Its time is up.
    TimedOut,
    /// It sleeps until it is woken.
    Forever,
    /// It sleeps until it is woken, or for this time.
    For(u64),
}

/// A signal. Times are counted in nanoseconds from a common start.
pub struct Signal {
    pub waiters: usize,
    pub permits: usize,
}

impl Signal {
    /// A signal that nobody has used yet.
    pub fn new() -> (signal: Self)
        ensures
            signal == (Signal { waiters: EMPTY, permits: 0 }),
    {
        Self { waiters: EMPTY, permits: 0 }
    }

    /// Whether a notification is stored.
    pub open spec fn notified(self) -> bool {
        super::signal_machine::notified(self.waiters)
    }

    /// Whether the permits go with the word: there is one at most, and only while a wake token is
    /// out.
    pub open spec fn settled(self) -> bool {
        &&& self.permits <= 1
        &&& self.permits == 1 ==> super::signal_machine::waking(self.waiters)
    }

    /// The signal with a notification, and with a wake token and its permit where the word is
    /// occupied and none is out.
    pub open spec fn with_notification(self) -> Signal {
        if self.notified() {
            self
        } else {
            Signal {
                waiters: super::signal_machine::notify_word(self.waiters),
                permits: if super::signal_machine::occupied(self.waiters)
                    && !super::signal_machine::waking(self.waiters) {
                    (self.permits + 1) as usize
                } else {
                    self.permits
                },
            }
        }
    }

    /// The signal without its wake token and permit.
    pub open spec fn without_permit(self) -> Signal {
        if self.permits > 0 {
            Signal {
                waiters: (self.waiters - super::signal_machine::WAKING) as usize,
                permits: (self.permits - 1) as usize,
            }
        } else {
            self
        }
    }

    /// Stores a notification, unless there is one already, with no other thread in between.
    pub fn notify(&mut self)
        requires
            old(self).permits < usize::MAX,
        ensures
            *final(self) == old(self).with_notification(),
    {
        let mut op = Notify::new();
        loop
            invariant
                op.wf(),
                old(self).permits < usize::MAX,
                match op.pc {
                    NotifyPc::Load => *self == *old(self),
                    NotifyPc::Store(word) => {
                        *self == *old(self) && word == self.waiters && !old(self).notified()
                    },
                    NotifyPc::Release => {
                        &&& self.permits == old(self).permits
                        &&& self.waiters == old(self).with_notification().waiters
                        &&& old(self).permits + 1 == old(self).with_notification().permits
                    },
                    NotifyPc::Done => *self == old(self).with_notification(),
                },
            decreases
                    match op.pc {
                        NotifyPc::Load => 3int,
                        NotifyPc::Store(_) => 2,
                        NotifyPc::Release => 1,
                        NotifyPc::Done => 0,
                    },
        {
            match op.access() {
                Some(SignalAccess::Load) => {
                    op.advance(SignalReply::Word(self.waiters));
                },
                Some(SignalAccess::Exchange { new, .. }) => {
                    self.waiters = new;
                    op.advance(SignalReply::Exchanged);
                },
                Some(_) => {
                    self.semaphore_release();
                    op.advance(SignalReply::Done);
                },
                None => {
                    return;
                },
            }
        }
    }

    /// Waits for a notification and takes it, with no other thread in between. Returns whether it
    /// timed out while waiting. Where no notification is stored, none comes: the thread takes the
    /// permit that an earlier one may have left, and then sleeps until its time is up.
    pub fn wait(&mut self, deadline: Option<u64>, now: u64, target: Target) -> (timed_out: bool)
        requires
            old(self).settled(),
            old(self).waiters <= usize::MAX - super::signal_machine::WAITING,
            old(self).notified() || deadline is Some,
        ensures
            timed_out == !old(self).notified(),
            old(self).notified() ==> *final(self) == (Signal {
                waiters: (old(self).waiters - super::signal_machine::NOTIFIED) as usize,
                ..*old(self)
            }),
            !old(self).notified() ==> *final(self) == old(self).without_permit(),
            final(self).settled(),
    {
        let backoff: Backoff = Backoff::new(target);
        let mut op = Wait::new(backoff);
        let ghost before = *self;
        proof {
            super::signal_machine::lemma_bits(self.waiters);
        }
        loop
            invariant
                op.wf(),
                before == *old(self),
                before.settled(),
                before.waiters <= usize::MAX - super::signal_machine::WAITING,
                before.notified() || deadline is Some,
                op.backoff.max_spin == backoff.max_spin,
                match op.pc {
                    WaitPc::Load => {
                        ||| *self == before && !op.is_waiting
                        ||| entered(before.without_permit(), *self) && op.is_waiting
                            && !before.notified()
                    },
                    WaitPc::Pause => {
                        ||| *self == before && !op.is_waiting && !before.notified()
                        ||| entered(before.without_permit(), *self) && op.is_waiting
                            && !before.notified()
                    },
                    WaitPc::Consume(word) => {
                        &&& *self == before
                        &&& !op.is_waiting
                        &&& word == self.waiters
                        &&& before.notified()
                    },
                    WaitPc::Enter(word) => {
                        &&& *self == before
                        &&& word == self.waiters
                        &&& !before.notified()
                    },
                    WaitPc::Sleep => {
                        &&& !before.notified()
                        &&& entered(before, *self) || entered(before.without_permit(), *self)
                    },
                    WaitPc::Leave => !before.notified() && entered(
                        before.without_permit(),
                        *self,
                    ),
                    WaitPc::Unwake => {
                        &&& !before.notified()
                        &&& before.permits == 1
                        &&& self.permits == 0
                        &&& self.waiters == before.waiters + super::signal_machine::WAITING
                    },
                    WaitPc::Notified => {
                        &&& before.notified()
                        &&& *self == (Signal {
                            waiters: (before.waiters - super::signal_machine::NOTIFIED) as usize,
                            ..before
                        })
                    },
                    WaitPc::TimedOut => !before.notified() && *self == before.without_permit(),
                },
            decreases
                    rank(op, self.permits as int),
                    op.backoff.max_spin - op.backoff.iteration,
                    if op.pc is Pause {
                        1int
                    } else {
                        0
                    },
        {
            proof {
                super::signal_machine::lemma_bits(self.waiters);
                super::signal_machine::lemma_bits(before.waiters);
            }
            match op.access() {
                Some(SignalAccess::Load) => {
                    op.advance(SignalReply::Word(self.waiters));
                },
                Some(SignalAccess::Exchange { new, .. }) => {
                    self.waiters = new;
                    op.advance(SignalReply::Exchanged);
                },
                Some(SignalAccess::FetchSub(amount)) => {
                    let word: usize = self.waiters;
                    self.waiters = word - amount;
                    op.advance(SignalReply::Word(word));
                },
                Some(SignalAccess::Acquire) => {
                    let timed_out: bool = match self.semaphore_acquire(deadline, now, false) {
                        Sleep::Acquired => false,
                        _ => true,
                    };
                    op.advance(SignalReply::Permit { timed_out });
                },
                Some(_) => {
                    op.advance(SignalReply::Done);
                },
                None => {
                    return match op.pc {
                        WaitPc::TimedOut => true,
                        _ => false,
                    };
                },
            }
        }
    }

    /// Adds a permit.
    pub fn semaphore_release(&mut self)
        requires
            old(self).permits < usize::MAX,
        ensures
            *final(self) == (Signal { permits: (old(self).permits + 1) as usize, ..*old(self) }),
    {
        self.permits = self.permits + 1;
    }

    /// Takes a permit where there is one. Where there is none, says whether the thread is to sleep
    /// or its time is up; `slept_out` says that it has just slept for its time.
    pub fn semaphore_acquire(&mut self, deadline: Option<u64>, now: u64, slept_out: bool) -> (sleep:
        Sleep)
        requires
            slept_out ==> deadline is Some,
        ensures
            old(self).permits > 0 ==> {
                &&& sleep is Acquired
                &&& *final(self) == (Signal {
                    permits: (old(self).permits - 1) as usize,
                    ..*old(self)
                })
            },
            old(self).permits == 0 ==> {
                &&& *final(self) == *old(self)
                &&& sleep == if slept_out {
                    Sleep::TimedOut
                } else {
                    match deadline {
                        Some(deadline) => if now >= deadline {
                            Sleep::TimedOut
                        } else {
                            Sleep::For((deadline - now) as u64)
                        },
                        None => Sleep::Forever,
                    }
                }
            },
    {
        if self.permits > 0 {
            self.permits = self.permits - 1;
            Sleep::Acquired
        } else if slept_out {
            Sleep::TimedOut
        } else {
            match deadline {
                Some(deadline) => {
                    if now >= deadline {
                        Sleep::TimedOut
                    } else {
                        Sleep::For(deadline - now)
                    }
                },
                None => Sleep::Forever,
            }
        }
    }
}

/// The signal `now` is `before` with one more waiting thread.
spec fn entered(before: Signal, now: Signal) -> bool {
    &&& now.waiters == before.waiters + super::signal_machine::WAITING
    &&& now.permits == before.permits
}

/// How many steps of a wait lie ahead at most, spinning aside.
spec fn rank(op: Wait, permits: int) -> int {
    match op.pc {
        WaitPc::Load | WaitPc::Pause => if op.is_waiting {
            3 * permits + 3
        } else {
            3 * permits + 6
        },
        WaitPc::Consume(_) => 1,
        WaitPc::Enter(_) => 3 * permits + 5,
        WaitPc::Sleep => 3 * permits + 2,
        WaitPc::Leave => 1,
        WaitPc::Unwake => 3 * permits + 4,
        WaitPc::Notified => 0,
        WaitPc::TimedOut => 0,
    }
}

} // verus!
