//! The slot through which a waiting task is woken.
use std::task::Waker;
use vstd::prelude::*;
use super::machine::{
    PollPc, WakePc, WakerAccess, WakerPoll, WakerReply, WakerWake, WAKER_EMPTY, WAKER_NOTIFIED,
    WAKER_WAITING,
};

verus! {

/// `std::task::Waker`, of which the library only carries values.
#[verifier::external_type_specification]
#[verifier::external_body]
pub struct ExWaker(std::task::Waker);

/// What a poll comes to.
#[derive(PartialEq, Eq, Debug)]
pub enum Poll<R> {
    Ready(R),
    Pending,
}

/// Whether two wakers wake the same task.
pub uninterp spec fn same_task(waker: Waker, other: Waker) -> bool;

/// Calls `std::task::Waker::will_wake`, which says whether two wakers are known to wake the same
/// task. Where it says yes, they do. It may say no of two wakers that do, so nothing is claimed of
/// that answer.
#[verifier::external_body]
fn will_wake(waker: &Waker, other: &Waker) -> (same: bool)
    ensures
        same ==> same_task(*waker, *other),
{
    waker.will_wake(other)
}

/// The waker to keep: the stored one where it wakes the same task, else the new one.
pub fn keep_waker(stored: Waker, new: Waker, same: bool) -> (waker: Waker)
    ensures
        waker == if same {
            stored
        } else {
            new
        },
{
    if same {
        stored
    } else {
        new
    }
}

/// The slot through which a waiting task is woken.
pub struct AtomicWaker {
    pub state: u8,
    pub waker: Option<Waker>,
}

impl AtomicWaker {
    /// Whether a task is registered that has not been woken.
    pub open spec fn waiting(self) -> bool {
        self.state == WAKER_WAITING && self.waker is Some
    }

    /// Whether a task is registered, perhaps anew at this moment, that has not been woken.
    pub open spec fn prepared(self) -> bool {
        self.waiting() || self.state == super::machine::WAKER_UPDATING
    }

    /// Whether the task has been woken.
    pub open spec fn notified(self) -> bool {
        self.state == WAKER_NOTIFIED
    }

    /// The slot after the task has been woken: a waker that was stored is handed out, unless the
    /// task is registering anew.
    pub open spec fn woken(self) -> AtomicWaker {
        AtomicWaker {
            state: WAKER_NOTIFIED,
            waker: if self.state == WAKER_WAITING {
                None
            } else {
                self.waker
            },
        }
    }

    /// What waking the task hands out.
    pub open spec fn wakes(self) -> Option<Waker> {
        if self.state == WAKER_WAITING {
            self.waker
        } else {
            None
        }
    }

    /// The slot after a task that has not been woken was registered anew with `waker`: it holds that
    /// waker, or still the stored one where both wake the same task.
    pub open spec fn registers(self, next: AtomicWaker, waker: Waker) -> bool {
        ||| next == AtomicWaker { waker: Some(waker), ..self }
        ||| next == self && same_task(waker, self.waker->0)
    }

    /// A slot without a task.
    pub fn new() -> (slot: AtomicWaker)
        ensures
            slot == (AtomicWaker { state: WAKER_EMPTY, waker: None }),
    {
        AtomicWaker { state: WAKER_EMPTY, waker: None }
    }

    /// Registers the task that `waker` wakes.
    pub fn prepare(&mut self, waker: Waker)
        ensures
            *final(self) == (AtomicWaker { state: WAKER_WAITING, waker: Some(waker) }),
            final(self).waiting(),
    {
        self.waker = Some(waker);
        self.state = WAKER_WAITING;
    }

    /// Asks whether the task has been woken. Where it has not, it is registered anew with
    /// `waker`, unless the stored waker wakes the same task.
    pub fn poll(&mut self, waker: Waker) -> (poll: Poll<()>)
        requires
            old(self).waiting() || old(self).notified(),
        ensures
            old(self).notified() ==> poll is Ready && *final(self) == *old(self),
            old(self).waiting() ==> poll is Pending && old(self).registers(*final(self), waker),
    {
        let mut op = WakerPoll::new();
        let mut new: Option<Waker> = Some(waker);
        loop
            invariant
                match op.pc {
                    PollPc::Load => *self == *old(self) && new == Some(waker),
                    PollPc::Claim(state) => {
                        &&& *self == *old(self)
                        &&& new == Some(waker)
                        &&& self.waiting()
                        &&& state == self.state
                    },
                    PollPc::Store => {
                        &&& old(self).waiting()
                        &&& self.waker == old(self).waker
                        &&& new == Some(waker)
                        &&& self.state == super::machine::WAKER_UPDATING
                    },
                    PollPc::Finish => {
                        &&& old(self).waiting()
                        &&& old(self).registers(
                            AtomicWaker { state: WAKER_WAITING, waker: self.waker },
                            waker,
                        )
                        &&& self.state == super::machine::WAKER_UPDATING
                    },
                    PollPc::Ready => old(self).notified() && *self == *old(self),
                    PollPc::Pending => {
                        &&& old(self).waiting()
                        &&& old(self).registers(*self, waker)
                    },
                },
                old(self).waiting() || old(self).notified(),
            decreases
                    match op.pc {
                        PollPc::Load => 4int,
                        PollPc::Claim(_) => 3,
                        PollPc::Store => 2,
                        PollPc::Finish => 1,
                        _ => 0,
                    },
        {
            let reply: WakerReply = match op.access() {
                Some(WakerAccess::Load) => WakerReply::State(self.state),
                Some(WakerAccess::Exchange { new, .. }) => {
                    self.state = new;
                    WakerReply::Exchanged
                },
                Some(_) => {
                    let stored: Waker = self.waker.take().unwrap();
                    let fresh: Waker = new.take().unwrap();
                    let same: bool = will_wake(&fresh, &stored);
                    self.waker = Some(keep_waker(stored, fresh, same));
                    WakerReply::Done
                },
                None => {
                    return match op.pc {
                        PollPc::Ready => Poll::Ready(()),
                        _ => Poll::Pending,
                    };
                },
            };
            op.advance(reply);
        }
    }

    /// Marks the task as woken and hands out its waker, which the caller is to wake. There is none
    /// where the task is registering anew: it will see by itself that it has been woken.
    pub fn wake(&mut self) -> (waker: Option<Waker>)
        requires
            old(self).prepared(),
        ensures
            *final(self) == old(self).woken(),
            waker == old(self).wakes(),
    {
        let mut op = WakerWake::new();
        let state: u8 = self.state;
        self.state = WAKER_NOTIFIED;
        op.advance(WakerReply::State(state));
        match op.pc {
            WakePc::Take => self.waker.take(),
            _ => None,
        }
    }
}

} // verus!
