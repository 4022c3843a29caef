//! A value behind a lock.
use vstd::prelude::*;
use super::access::Reply;
use super::acquire::Acquire;
use super::release::Release;
use super::word::UNLOCKED;

verus! {

/// A lock, and the value that it guards.
pub struct Lock<T> {
    pub state: usize,
    pub value: T,
}

impl<T> Lock<T> {
    /// A lock that nobody holds.
    pub fn new(value: T) -> (lock: Self)
        ensures
            lock == (Lock { state: UNLOCKED as usize, value }),
    {
        Self { state: UNLOCKED as usize, value }
    }

    /// Calls `f` on the value of a lock that no other thread can reach.
    pub fn with_mut<F>(&mut self, f: impl FnOnce(&mut T) -> F) -> (result: F)
        requires
            forall|value: &mut T| *value == old(self).value ==> call_requires(f, (value,)),
        ensures
            final(self).state == old(self).state,
            exists|value: &mut T| #[trigger]
                call_ensures(f, (value,), result) && *value == old(self).value && *final(value)
                    == final(self).value,
    {
        f(&mut self.value)
    }

    /// Calls `f` on the value while the lock is held, and frees it again. Where a waiter is to be
    /// woken, the thread goes on from the second result.
    pub fn with<F>(&mut self, f: impl FnOnce(&mut T) -> F) -> (done: (F, Release))
        requires
            super::word::byte(old(self).state) == UNLOCKED,
            forall|value: &mut T| *value == old(self).value ==> call_requires(f, (value,)),
        ensures
            final(self).state == super::word::with_byte_unlocked(old(self).state),
            final(self).state == old(self).state,
            exists|value: &mut T, result: F| #[trigger]
                call_ensures(f, (value,), result) && result == done.0 && *value == old(self).value
                    && *final(value) == final(self).value,
            done.1 == (Release { pc: super::release::ReleasePc::Unlock }).after(Reply::Done).after(
                Reply::Word(final(self).state),
            ),
            done.1.pc is Done == !super::word::wake_needed(final(self).state),
            done.1.wf(),
    {
        let _taken: bool = self.try_acquire();
        let result: F = f(&mut self.value);
        let op: Release = self.release();
        (result, op)
    }

    /// The low byte of the word, which says whether the lock is held.
    pub fn byte_state(&self) -> (byte: u8)
        ensures
            byte == super::word::byte(self.state),
    {
        (self.state % 256) as u8
    }

    /// Swaps `LOCKED` into the low byte of the word, and says whether the lock was free.
    pub fn try_acquire(&mut self) -> (acquired: bool)
        ensures
            acquired == (super::word::byte(old(self).state) == UNLOCKED),
            *final(self) == (Lock {
                state: super::word::with_byte_locked(old(self).state),
                ..*old(self)
            }),
    {
        let byte: u8 = self.byte_state();
        self.state = self.state - self.state % 256 + 1;
        byte == UNLOCKED
    }

    /// Tries to take the lock for the thread whose waiter is at `me`. Where it is held, the thread
    /// goes on from the result.
    pub fn acquire(&mut self, me: usize) -> (op: Acquire)
        requires
            super::word::is_address(me),
        ensures
            op == (Acquire { me, spin: 0, pc: super::acquire::AcquirePc::Fast }).after(
                Reply::Byte(super::word::byte(old(self).state)),
            ),
            op.pc is Acquired == (super::word::byte(old(self).state) == UNLOCKED),
            op.wf(),
            *final(self) == (Lock {
                state: super::word::with_byte_locked(old(self).state),
                ..*old(self)
            }),
    {
        let mut op: Acquire = Acquire::new(me);
        let byte: u8 = self.byte_state();
        let _free: bool = self.try_acquire();
        op.advance(Reply::Byte(byte));
        op
    }

    /// Frees the lock. Where a waiter is to be woken, the thread goes on from the result.
    pub fn release(&mut self) -> (op: Release)
        ensures
            *final(self) == (Lock {
                state: super::word::with_byte_unlocked(old(self).state),
                ..*old(self)
            }),
            op == (Release { pc: super::release::ReleasePc::Unlock }).after(Reply::Done).after(
                Reply::Word(final(self).state),
            ),
            op.pc is Done == !super::word::wake_needed(final(self).state),
            op.wf(),
    {
        let mut op: Release = Release::new();
        self.state = self.state - self.state % 256;
        op.advance(Reply::Done);
        op.advance(Reply::Word(self.state));
        op
    }
}

} // verus!
