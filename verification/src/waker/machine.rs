//! Polling and waking, one access to the shared memory at a time.
use vstd::prelude::*;

verus! {

/// Nobody has been registered yet.
pub const WAKER_EMPTY: u8 = 0;

/// A task is registered and has not been woken.
pub const WAKER_WAITING: u8 = 1;

/// The task is being registered anew.
pub const WAKER_UPDATING: u8 = 2;

/// The task has been woken.
pub const WAKER_NOTIFIED: u8 = 3;

/// One access to the memory that a task shares with the thread that wakes it.
#[derive(Clone, Copy, PartialEq, Eq, Debug)]
pub enum WakerAccess {
    /// Loads the state; answered by `State`.
    Load,
    /// Replaces the state by `new` where it is `current`; answered by `Exchanged`, or by
    /// `Observed` with the state as it is. A weak one may fail though the state is `current`.
    Exchange { current: u8, new: u8, weak: bool },
    /// Puts the waker of the polling task in place of the stored one, unless both wake the same
    /// task; answered by `Done`.
    Store,
    /// Swaps `WAKER_NOTIFIED` into the state; answered by `State` with the state as it was.
    Swap,
    /// Takes the stored waker out; answered by `Done`.
    Take,
}

/// The answer to an access.
#[derive(Clone, Copy, PartialEq, Eq, Debug)]
pub enum WakerReply {
    Done,
    State(u8),
    Exchanged,
    Observed(u8),
}

/// Whether `reply` is of the kind that answers `access`.
pub open spec fn answers(reply: WakerReply, access: WakerAccess) -> bool {
    match access {
        WakerAccess::Load => reply is State,
        WakerAccess::Exchange { .. } => reply is Exchanged || reply is Observed,
        WakerAccess::Store => reply is Done,
        WakerAccess::Swap => reply is State,
        WakerAccess::Take => reply is Done,
    }
}

/// Where a task stands that polls.
#[derive(Clone, Copy, PartialEq, Eq, Debug)]
pub enum PollPc {
    /// About to load the state.
    Load,
    /// About to announce that it registers anew, in place of this state.
    Claim(u8),
    /// About to store its waker.
    Store,
    /// About to declare itself registered.
    Finish,
    /// Has been woken.
    Ready,
    /// Is registered.
    Pending,
}

/// A task that polls.
#[derive(Clone, Copy, PartialEq, Eq, Debug)]
pub struct WakerPoll {
    pub pc: PollPc,
}

/// Whether a task that sees `state` can go on: it has been registered, and no other task polls.
pub open spec fn pollable(state: u8) -> bool {
    state % 4 == WAKER_WAITING || state % 4 == WAKER_NOTIFIED
}

/// Where a task goes from a state that it has seen.
pub open spec fn polled(state: u8) -> PollPc {
    if state % 4 == WAKER_WAITING {
        PollPc::Claim(state)
    } else {
        PollPc::Ready
    }
}

impl WakerPoll {
    /// What the task does next, none where the poll is over.
    pub open spec fn spec_access(self) -> Option<WakerAccess> {
        match self.pc {
            PollPc::Load => Some(WakerAccess::Load),
            PollPc::Claim(state) => Some(
                WakerAccess::Exchange { current: state, new: WAKER_UPDATING, weak: true },
            ),
            PollPc::Store => Some(WakerAccess::Store),
            PollPc::Finish => Some(
                WakerAccess::Exchange { current: WAKER_UPDATING, new: WAKER_WAITING, weak: false },
            ),
            PollPc::Ready => None,
            PollPc::Pending => None,
        }
    }

    /// Whether the task can go on from `reply`: it answers the access, and what it shows is a
    /// state that a single registered task can meet.
    pub open spec fn accepts(self, reply: WakerReply) -> bool {
        &&& self.spec_access() is Some
        &&& answers(reply, self.spec_access()->0)
        &&& self.pc is Load ==> pollable(reply->State_0)
        &&& self.pc is Claim && reply is Observed ==> pollable(reply->Observed_0)
        &&& self.pc is Finish && reply is Observed ==> reply->Observed_0 == WAKER_NOTIFIED
    }

    /// Where the task stands after `reply`.
    pub open spec fn after(self, reply: WakerReply) -> WakerPoll {
        let pc = match self.pc {
            PollPc::Load => polled(reply->State_0),
            PollPc::Claim(_) => if reply is Exchanged {
                PollPc::Store
            } else {
                polled(reply->Observed_0)
            },
            PollPc::Store => PollPc::Finish,
            PollPc::Finish => if reply is Exchanged {
                PollPc::Pending
            } else {
                PollPc::Ready
            },
            PollPc::Ready => PollPc::Ready,
            PollPc::Pending => PollPc::Pending,
        };
        WakerPoll { pc }
    }

    /// A task before its first access.
    pub fn new() -> (op: WakerPoll)
        ensures
            op == (WakerPoll { pc: PollPc::Load }),
    {
        WakerPoll { pc: PollPc::Load }
    }

    /// What the task does next, none where the poll is over.
    pub fn access(&self) -> (access: Option<WakerAccess>)
        ensures
            access == self.spec_access(),
    {
        match self.pc {
            PollPc::Load => Some(WakerAccess::Load),
            PollPc::Claim(state) => Some(
                WakerAccess::Exchange { current: state, new: WAKER_UPDATING, weak: true },
            ),
            PollPc::Store => Some(WakerAccess::Store),
            PollPc::Finish => Some(
                WakerAccess::Exchange { current: WAKER_UPDATING, new: WAKER_WAITING, weak: false },
            ),
            PollPc::Ready => None,
            PollPc::Pending => None,
        }
    }

    /// Goes on from the answer to the access.
    pub fn advance(&mut self, reply: WakerReply)
        requires
            old(self).accepts(reply),
        ensures
            *final(self) == old(self).after(reply),
    {
        self.pc = match (self.pc, reply) {
            (PollPc::Load, WakerReply::State(state)) => look(state),
            (PollPc::Claim(_), WakerReply::Observed(state)) => look(state),
            (PollPc::Claim(_), _) => PollPc::Store,
            (PollPc::Store, _) => PollPc::Finish,
            (PollPc::Finish, WakerReply::Exchanged) => PollPc::Pending,
            (_, _) => PollPc::Ready,
        };
    }
}

fn look(state: u8) -> (pc: PollPc)
    ensures
        pc == polled(state),
{
    proof {
        assert(state & 3 == state % 4) by (bit_vector);
    }
    if state & 3 == WAKER_WAITING {
        PollPc::Claim(state)
    } else {
        PollPc::Ready
    }
}

/// Where a thread stands that wakes.
#[derive(Clone, Copy, PartialEq, Eq, Debug)]
pub enum WakePc {
    /// About to mark the task as woken.
    Swap,
    /// About to take the waker.
    Take,
    /// Has the waker of the task.
    Taken,
    /// Has no waker: the task is polling and will see that it has been woken.
    Left,
}

/// A thread that wakes.
#[derive(Clone, Copy, PartialEq, Eq, Debug)]
pub struct WakerWake {
    pub pc: WakePc,
}

/// Whether a thread that finds `state` can go on: a task has been registered, and it has not been
/// woken since.
pub open spec fn wakeable(state: u8) -> bool {
    state % 4 == WAKER_WAITING || state % 4 == WAKER_UPDATING
}

impl WakerWake {
    /// What the thread does next, none where it is done.
    pub open spec fn spec_access(self) -> Option<WakerAccess> {
        match self.pc {
            WakePc::Swap => Some(WakerAccess::Swap),
            WakePc::Take => Some(WakerAccess::Take),
            WakePc::Taken => None,
            WakePc::Left => None,
        }
    }

    /// Whether the thread can go on from `reply`.
    pub open spec fn accepts(self, reply: WakerReply) -> bool {
        &&& self.spec_access() is Some
        &&& answers(reply, self.spec_access()->0)
        &&& self.pc is Swap ==> wakeable(reply->State_0)
    }

    /// Where the thread stands after `reply`.
    pub open spec fn after(self, reply: WakerReply) -> WakerWake {
        let pc = match self.pc {
            WakePc::Swap => if reply->State_0 % 4 == WAKER_WAITING {
                WakePc::Take
            } else {
                WakePc::Left
            },
            WakePc::Take => WakePc::Taken,
            WakePc::Taken => WakePc::Taken,
            WakePc::Left => WakePc::Left,
        };
        WakerWake { pc }
    }

    /// A thread before its first access.
    pub fn new() -> (op: WakerWake)
        ensures
            op == (WakerWake { pc: WakePc::Swap }),
    {
        WakerWake { pc: WakePc::Swap }
    }

    /// What the thread does next, none where it is done.
    pub fn access(&self) -> (access: Option<WakerAccess>)
        ensures
            access == self.spec_access(),
    {
        match self.pc {
            WakePc::Swap => Some(WakerAccess::Swap),
            WakePc::Take => Some(WakerAccess::Take),
            WakePc::Taken => None,
            WakePc::Left => None,
        }
    }

    /// Goes on from the answer to the access.
    pub fn advance(&mut self, reply: WakerReply)
        requires
            old(self).accepts(reply),
        ensures
            *final(self) == old(self).after(reply),
    {
        self.pc = match (self.pc, reply) {
            (WakePc::Swap, WakerReply::State(state)) => {
                proof {
                    assert(state & 3 == state % 4) by (bit_vector);
                }
                if state & 3 == WAKER_WAITING {
                    WakePc::Take
                } else {
                    WakePc::Left
                }
            },
            (WakePc::Take, _) => WakePc::Taken,
            (pc, _) => pc,
        };
    }
}

} // verus!
