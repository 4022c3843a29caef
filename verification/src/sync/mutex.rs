//! A lock that threads spin on, and a value behind it.
use vstd::prelude::*;

verus! {

/// How often a thread stays on the processor at most between two looks at the lock.
pub const MAX_HINTS: usize = 100;

/// One access to the flag of a lock, or one pause of the thread.
#[derive(Clone, Copy, PartialEq, Eq, Debug)]
pub enum SpinAccess {
    /// Loads the flag; answered by `Flag`.
    Load,
    /// Sets the flag where it is clear; answered by `Exchanged`, or by `Observed` with the flag as
    /// it is. It may fail though the flag is clear.
    Exchange,
    /// Yields the rest of the time slice; answered by `Done`.
    Yield,
    /// Tells the processor that the thread spins, so many times; answered by `Done`.
    Hint(usize),
}

/// The answer to an access.
#[derive(Clone, Copy, PartialEq, Eq, Debug)]
pub enum SpinReply {
    Done,
    Flag(bool),
    Exchanged,
    Observed(bool),
}

/// Whether `reply` is of the kind that answers `access`.
pub open spec fn answers(reply: SpinReply, access: SpinAccess) -> bool {
    match access {
        SpinAccess::Load => reply is Flag,
        SpinAccess::Exchange => reply is Exchanged || reply is Observed,
        SpinAccess::Yield => reply is Done,
        SpinAccess::Hint(_) => reply is Done,
    }
}

/// Where a thread stands that takes the lock.
#[derive(Clone, Copy, PartialEq, Eq, Debug)]
pub enum SpinPc {
    /// About to look at the flag.
    Look,
    /// About to set the flag.
    Try,
    /// About to pause.
    Pause,
    /// Holds the lock.
    Acquired,
}

/// A thread that takes the lock.
#[derive(Clone, Copy, PartialEq, Eq, Debug)]
pub struct SpinAcquire {
    /// Whether it yields when it pauses, or stays on the processor.
    pub yields: bool,
    /// How often it has found the lock taken; starts over when the count runs out.
    pub spin: usize,
    pub pc: SpinPc,
}

impl SpinAcquire {
    /// The count after one more failure.
    pub open spec fn failed(self) -> SpinAcquire {
        SpinAcquire {
            spin: if self.yields {
                self.spin
            } else if self.spin == usize::MAX {
                0
            } else {
                (self.spin + 1) as usize
            },
            pc: SpinPc::Pause,
            ..self
        }
    }

    /// What the thread does next, none where it holds the lock.
    pub open spec fn spec_access(self) -> Option<SpinAccess> {
        match self.pc {
            SpinPc::Look => Some(SpinAccess::Load),
            SpinPc::Try => Some(SpinAccess::Exchange),
            SpinPc::Pause => if self.yields {
                Some(SpinAccess::Yield)
            } else {
                Some(
                    SpinAccess::Hint(
                        if self.spin < MAX_HINTS {
                            self.spin
                        } else {
                            MAX_HINTS
                        },
                    ),
                )
            },
            SpinPc::Acquired => None,
        }
    }

    /// Whether `reply` answers the access.
    pub open spec fn accepts(self, reply: SpinReply) -> bool {
        self.spec_access() is Some && answers(reply, self.spec_access()->0)
    }

    /// Where the thread stands after `reply`.
    pub open spec fn after(self, reply: SpinReply) -> SpinAcquire {
        match self.pc {
            SpinPc::Look => if reply->Flag_0 {
                self.failed()
            } else {
                SpinAcquire { pc: SpinPc::Try, ..self }
            },
            SpinPc::Try => if reply is Exchanged {
                SpinAcquire { pc: SpinPc::Acquired, ..self }
            } else {
                self.failed()
            },
            SpinPc::Pause => SpinAcquire { pc: SpinPc::Look, ..self },
            SpinPc::Acquired => self,
        }
    }

    /// A thread before its first access.
    pub fn new(yields: bool) -> (op: SpinAcquire)
        ensures
            op == (SpinAcquire { yields, spin: 0, pc: SpinPc::Look }),
    {
        SpinAcquire { yields, spin: 0, pc: SpinPc::Look }
    }

    /// What the thread does next, none where it holds the lock.
    pub fn access(&self) -> (access: Option<SpinAccess>)
        ensures
            access == self.spec_access(),
    {
        match self.pc {
            SpinPc::Look => Some(SpinAccess::Load),
            SpinPc::Try => Some(SpinAccess::Exchange),
            SpinPc::Pause => {
                if self.yields {
                    Some(SpinAccess::Yield)
                } else if self.spin < MAX_HINTS {
                    Some(SpinAccess::Hint(self.spin))
                } else {
                    Some(SpinAccess::Hint(MAX_HINTS))
                }
            },
            SpinPc::Acquired => None,
        }
    }

    /// Goes on from the answer to the access.
    pub fn advance(&mut self, reply: SpinReply)
        requires
            old(self).accepts(reply),
        ensures
            *final(self) == old(self).after(reply),
    {
        match (self.pc, reply) {
            (SpinPc::Look, SpinReply::Flag(false)) => {
                self.pc = SpinPc::Try;
            },
            (SpinPc::Try, SpinReply::Exchanged) => {
                self.pc = SpinPc::Acquired;
            },
            (SpinPc::Pause, _) => {
                self.pc = SpinPc::Look;
            },
            (_, _) => {
                if !self.yields {
                    self.spin = self.spin.wrapping_add(1);
                }
                self.pc = SpinPc::Pause;
            },
        }
    }
}

/// The flag of a lock.
pub struct Lock {
    pub is_locked: bool,
}

impl Lock {
    /// A lock that nobody holds.
    pub fn new() -> (lock: Self)
        ensures
            !lock.is_locked,
    {
        Self { is_locked: false }
    }

    /// Takes the lock, where it is free. Where it is not, a thread spins on `SpinAcquire` until
    /// another one releases it.
    pub fn acquire(&mut self)
        requires
            !old(self).is_locked,
        ensures
            final(self).is_locked,
    {
        let mut op = SpinAcquire::new(true);
        loop
            invariant
                match op.pc {
                    SpinPc::Look => !self.is_locked,
                    SpinPc::Try => !self.is_locked,
                    SpinPc::Pause => false,
                    SpinPc::Acquired => self.is_locked,
                },
            decreases
                    match op.pc {
                        SpinPc::Look => 2int,
                        SpinPc::Try => 1,
                        _ => 0,
                    },
        {
            match op.access() {
                Some(SpinAccess::Load) => {
                    op.advance(SpinReply::Flag(self.is_locked));
                },
                Some(_) => {
                    self.is_locked = true;
                    op.advance(SpinReply::Exchanged);
                },
                None => {
                    return;
                },
            }
        }
    }

    /// Frees the lock.
    pub fn release(&mut self)
        ensures
            !final(self).is_locked,
    {
        self.is_locked = false;
    }
}

/// A value behind a lock.
pub struct Mutex<T> {
    pub lock: Lock,
    pub value: T,
}

impl<T> Mutex<T> {
    /// A value behind a lock that nobody holds.
    pub fn new(value: T) -> (mutex: Self)
        ensures
            !mutex.lock.is_locked,
            mutex.value == value,
    {
        Self { lock: Lock::new(), value }
    }

    /// Takes the lock and gives access to the value.
    pub fn lock(&mut self) -> (guard: MutexGuard<'_, T>)
        requires
            !old(self).lock.is_locked,
        ensures
            guard.mutex.lock.is_locked,
            guard.mutex.value == old(self).value,
            *final(self) == *final(guard.mutex),
    {
        self.lock.acquire();
        MutexGuard { mutex: self }
    }
}

/// Access to the value of a mutex whose lock is held.
pub struct MutexGuard<'a, T> {
    pub mutex: &'a mut Mutex<T>,
}

impl<'a, T> MutexGuard<'a, T> {
    /// The value.
    pub fn deref(&self) -> (value: &T)
        ensures
            *value == old(self.mutex).value,
    {
        &self.mutex.value
    }

    /// The value, to be changed.
    pub fn deref_mut(&mut self) -> (value: &mut T)
        ensures
            *value == old(self).mutex.value,
            final(self).mutex.value == *final(value),
            final(self).mutex.lock == old(self).mutex.lock,
            *final(final(self).mutex) == *final(old(self).mutex),
    {
        &mut self.mutex.value
    }

    /// Frees the lock.
    pub fn drop(self)
        ensures
            !final(self.mutex).lock.is_locked,
            final(self.mutex).value == old(self.mutex).value,
    {
        self.mutex.lock.release();
    }
}

} // verus!
