//! What holds of a task and the thread that wakes it, in whatever order they make their accesses.
use vstd::prelude::*;
use super::machine::{
    PollPc, WakePc, WakerAccess, WakerPoll, WakerReply, WakerWake, WAKER_NOTIFIED, WAKER_UPDATING,
    WAKER_WAITING,
};

verus! {

/// A registered task that polls any number of times, and a thread that wakes it once.
///
/// Wakers are told apart by the number of the poll that brought them; the registration brings
/// number 0. A stored waker that is kept because it wakes the same task takes the new number.
pub ghost struct Wakeup {
    pub state: u8,
    pub stored: Option<nat>,
    /// Number of the last poll that has begun.
    pub polls: nat,
    /// The poll in progress.
    pub poll: Option<WakerPoll>,
    /// Whether a poll has ended that found the task woken.
    pub ready: bool,
    /// The thread that wakes, once it has begun.
    pub wake: Option<WakerWake>,
    /// The waker that it has taken.
    pub handed: Option<nat>,
}

impl Wakeup {
    /// The task has just been registered.
    pub open spec fn init(self) -> bool {
        &&& self.state == WAKER_WAITING
        &&& self.stored == Some(0nat)
        &&& self.polls == 0
        &&& self.poll is None
        &&& !self.ready
        &&& self.wake is None
        &&& self.handed is None
    }

    /// The answer to an access. `exchanged` says whether an `Exchange` succeeded.
    pub open spec fn reply(self, access: WakerAccess, exchanged: bool) -> WakerReply {
        match access {
            WakerAccess::Load => WakerReply::State(self.state),
            WakerAccess::Exchange { .. } => if exchanged {
                WakerReply::Exchanged
            } else {
                WakerReply::Observed(self.state)
            },
            WakerAccess::Store => WakerReply::Done,
            WakerAccess::Swap => WakerReply::State(self.state),
            WakerAccess::Take => WakerReply::Done,
        }
    }

    /// Whether an `Exchange` may come out as `exchanged` says.
    pub open spec fn allows(self, access: WakerAccess, exchanged: bool) -> bool {
        match access {
            WakerAccess::Exchange { current, weak, .. } => {
                &&& exchanged ==> self.state == current
                &&& !exchanged && !weak ==> self.state != current
            },
            _ => true,
        }
    }

    /// The memory after an access.
    pub open spec fn accessed(self, access: WakerAccess, exchanged: bool) -> Wakeup {
        match access {
            WakerAccess::Load => self,
            WakerAccess::Exchange { new, .. } => if exchanged {
                Wakeup { state: new, ..self }
            } else {
                self
            },
            WakerAccess::Store => Wakeup { stored: Some(self.polls), ..self },
            WakerAccess::Swap => Wakeup { state: WAKER_NOTIFIED, ..self },
            WakerAccess::Take => Wakeup { stored: None, handed: self.stored, ..self },
        }
    }

    /// The task begins a poll. It does not poll again once it knows that it has been woken.
    pub open spec fn begins_poll(self, next: Wakeup) -> bool {
        &&& self.poll is None
        &&& !self.ready
        &&& next == Wakeup {
            polls: self.polls + 1,
            poll: Some(WakerPoll { pc: PollPc::Load }),
            ..self
        }
    }

    /// The task makes the access that it is about to make.
    pub open spec fn poll_steps(self, next: Wakeup, exchanged: bool) -> bool {
        let access = self.poll->0.spec_access();
        &&& self.poll is Some
        &&& access is Some
        &&& self.allows(access->0, exchanged)
        &&& next == Wakeup {
            poll: Some(self.poll->0.after(self.reply(access->0, exchanged))),
            ..self.accessed(access->0, exchanged)
        }
    }

    /// The poll is over.
    pub open spec fn ends_poll(self, next: Wakeup) -> bool {
        &&& self.poll is Some
        &&& self.poll->0.spec_access() is None
        &&& next == Wakeup { poll: None, ready: self.poll->0.pc is Ready, ..self }
    }

    /// The thread that wakes begins.
    pub open spec fn begins_wake(self, next: Wakeup) -> bool {
        &&& self.wake is None
        &&& next == Wakeup { wake: Some(WakerWake { pc: WakePc::Swap }), ..self }
    }

    /// The thread that wakes makes the access that it is about to make.
    pub open spec fn wake_steps(self, next: Wakeup) -> bool {
        let access = self.wake->0.spec_access();
        &&& self.wake is Some
        &&& access is Some
        &&& next == Wakeup {
            wake: Some(self.wake->0.after(self.reply(access->0, true))),
            ..self.accessed(access->0, true)
        }
    }

    /// The task or the thread that wakes it does something.
    pub open spec fn next(self, next: Wakeup) -> bool {
        ||| self.begins_poll(next)
        ||| self.poll_steps(next, true)
        ||| self.poll_steps(next, false)
        ||| self.ends_poll(next)
        ||| self.begins_wake(next)
        ||| self.wake_steps(next)
    }

    /// Whether the moment comes after `n` steps, in some order.
    pub open spec fn reachable(self, n: nat) -> bool
        decreases n,
    {
        if n == 0 {
            self.init()
        } else {
            exists|before: Wakeup|
                #![trigger before.next(self)]
                before.reachable((n - 1) as nat) && before.next(self)
        }
    }

    /// The task has been marked as woken.
    pub open spec fn marked(self) -> bool {
        self.wake is Some && !(self.wake->0.pc is Swap)
    }

    /// The number of the last poll that has registered the task.
    pub open spec fn registered(self) -> nat {
        match self.poll {
            Some(op) => match op.pc {
                PollPc::Finish | PollPc::Pending => self.polls,
                _ => (self.polls - 1) as nat,
            },
            None => self.polls,
        }
    }

    /// What holds at every moment.
    pub open spec fn inv(self) -> bool {
        let updating = self.poll matches Some(op) && (op.pc is Store || op.pc is Finish);
        &&& self.poll is Some ==> self.polls > 0
        &&& self.poll is Some && self.poll->0.pc is Claim ==> self.poll->0.pc->Claim_0
            == WAKER_WAITING
        &&& self.ready ==> self.poll is None
        &&& updating ==> self.stored is Some
        &&& if self.marked() {
            &&& self.state == WAKER_NOTIFIED
            &&& match self.wake->0.pc {
                WakePc::Take => !updating && self.handed is None && (!self.ready && !(self.poll
                    matches Some(op) && op.pc is Ready) ==> self.stored == Some(self.registered()))
                    && self.stored is Some,
                WakePc::Taken => !updating && (!self.ready && !(self.poll matches Some(op)
                    && op.pc is Ready) ==> self.handed == Some(self.registered()))
                    && self.handed is Some,
                WakePc::Left => self.handed is None && (updating || self.ready || (self.poll
                    matches Some(op) && op.pc is Ready)),
                WakePc::Swap => true,
            }
        } else {
            &&& !self.ready
            &&& self.handed is None
            &&& self.state == if updating {
                WAKER_UPDATING
            } else {
                WAKER_WAITING
            }
            &&& self.stored == Some(self.registered())
            &&& !(self.poll matches Some(op) && op.pc is Ready)
        }
    }
}

/// What holds after any number of steps.
pub proof fn lemma_reachable(w: Wakeup, n: nat)
    requires
        w.reachable(n),
    ensures
        w.inv(),
    decreases n,
{
    if n > 0 {
        let before = choose|before: Wakeup|
            #![trigger before.next(w)]
            before.reachable((n - 1) as nat) && before.next(w);
        lemma_reachable(before, (n - 1) as nat);
    }
}

/// The task and the thread that wakes it never work on the stored waker at the same time.
pub proof fn law_waker_has_one_user(w: Wakeup, n: nat)
    requires
        w.reachable(n),
    ensures
        !(w.poll matches Some(op) && op.pc is Store) || !(w.wake matches Some(op) && op.pc is Take),
{
    lemma_reachable(w, n);
}

/// Whatever the order, the task and the thread that wakes it can go on from what they see: the task
/// never meets an empty or busy slot, the thread finds a registered task that has not been woken,
/// and there is a waker to take.
pub proof fn law_no_step_is_stuck(w: Wakeup, n: nat, exchanged: bool)
    requires
        w.reachable(n),
    ensures
        w.poll matches Some(op) ==> (op.spec_access() matches Some(access) ==> (w.allows(
            access,
            exchanged,
        ) ==> op.accepts(w.reply(access, exchanged)))),
        w.wake matches Some(op) ==> (op.spec_access() matches Some(access) ==> op.accepts(
            w.reply(access, true),
        )),
        w.wake is Some && w.wake->0.pc is Take ==> w.stored is Some,
        w.poll is Some && w.poll->0.pc is Store ==> w.stored is Some,
{
    lemma_reachable(w, n);
}

/// No wakeup is lost. Once the thread that wakes is done, a task that was told to wait has had the
/// waker of its last poll taken by that thread, which wakes it; a poll in progress has either
/// registered nothing anew since, or will end by telling the task that it has been woken.
pub proof fn law_no_lost_wakeup(w: Wakeup, n: nat)
    requires
        w.reachable(n),
        w.wake matches Some(op) && (op.pc is Taken || op.pc is Left),
    ensures
        w.poll is None && !w.ready ==> w.handed == Some(w.polls),
        w.poll is Some && w.poll->0.pc is Pending ==> w.handed == Some(w.polls),
        w.handed is None ==> w.ready || (w.poll matches Some(op) && (op.pc is Store
            || op.pc is Finish || op.pc is Ready)),
        w.state == WAKER_NOTIFIED,
{
    lemma_reachable(w, n);
}

/// A poll that looks after the task has been marked as woken finds it so.
pub proof fn law_woken_task_is_ready(w: Wakeup, n: nat, next: Wakeup)
    requires
        w.reachable(n),
        w.marked(),
        w.poll matches Some(op) && op.pc is Load,
        w.poll_steps(next, false),
    ensures
        next.poll == Some(WakerPoll { pc: PollPc::Ready }),
{
    lemma_reachable(w, n);
}

} // verus!
