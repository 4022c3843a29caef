//! What registering, polling and waking do to the slot of a task, in terms of its parts.
use std::task::Waker;
use vstd::prelude::*;
use super::atomic::AtomicWaker;
use super::machine::{
    PollPc, WakePc, WakerAccess, WakerPoll, WakerReply, WakerWake, WAKER_EMPTY, WAKER_NOTIFIED,
    WAKER_UPDATING, WAKER_WAITING,
};
use super::system::Wakeup;

verus! {

/// The four states of a slot are told apart by two bits.
pub proof fn law_states_of_a_slot(slot: AtomicWaker)
    ensures
        WAKER_EMPTY == 0 && WAKER_WAITING == 1 && WAKER_UPDATING == 2 && WAKER_NOTIFIED == 3,
        slot.waiting() == (slot.state == 1 && slot.waker is Some),
        slot.prepared() == (slot.waiting() || slot.state == 2),
        slot.notified() == (slot.state == 3),
{
}

/// Waking hands out the stored waker of a task that waits, and none of a task that is registering
/// anew, which keeps it. Either way the task is marked as woken, and a second time nothing would
/// come out.
pub proof fn law_waking(slot: AtomicWaker)
    requires
        slot.prepared(),
    ensures
        slot.woken().state == 3,
        slot.state == 1 ==> slot.wakes() == slot.waker && slot.wakes() is Some
            && slot.woken().waker is None,
        slot.state == 2 ==> slot.wakes() is None && slot.woken().waker == slot.waker,
        slot.woken().wakes() is None,
{
}

/// A task that is registered and then woken is woken by the very waker that it was registered with.
pub proof fn law_registered_waker_is_handed_out(slot: AtomicWaker, waker: Waker)
    requires
        slot.state == 1,
        slot.waker == Some(waker),
    ensures
        slot.waiting(),
        slot.wakes() == Some(waker),
        slot.woken().notified(),
{
}

/// A task that is registered anew waits on, and is woken by its new waker, or by the old one where
/// both wake the same task.
pub proof fn law_registering_anew(slot: AtomicWaker, next: AtomicWaker, waker: Waker)
    requires
        slot.waiting(),
        slot.registers(next, waker),
    ensures
        next.waiting(),
        next.wakes() == Some(waker) || (next.wakes() == slot.wakes() && super::atomic::same_task(
            waker,
            slot.waker->0,
        )),
{
}

/// The steps of a task that polls: a state that says that it waits is claimed, a claimed slot is
/// stored into, and what was stored is declared; a task is ready exactly where it sees that it has
/// been woken, and pending exactly where its declaration went through.
pub proof fn law_steps_of_polling(op: WakerPoll, reply: WakerReply)
    requires
        op.accepts(reply),
    ensures
        ({
            let pc = op.after(reply).pc;
            let saw = match reply {
                WakerReply::State(state) => Some(state),
                WakerReply::Observed(state) => Some(state),
                _ => None,
            };
            &&& (op.pc is Load || op.pc is Claim) && saw is Some ==> {
                &&& saw->0 % 4 == 1 ==> pc == PollPc::Claim(saw->0)
                &&& saw->0 % 4 == 3 ==> pc is Ready
            }
            &&& op.pc is Claim && reply is Exchanged ==> pc is Store
            &&& op.pc is Store ==> pc is Finish
            &&& op.pc is Finish ==> (pc is Pending <==> reply is Exchanged) && (pc is Ready <==> !(
            reply is Exchanged))
        }),
{
}

/// What a task that polls asks of the memory.
pub proof fn law_accesses_of_polling(op: WakerPoll)
    ensures
        op.pc is Load ==> op.spec_access() == Some(WakerAccess::Load),
        op.pc matches PollPc::Claim(state) ==> op.spec_access() == Some(
            WakerAccess::Exchange { current: state, new: 2, weak: true },
        ),
        op.pc is Store ==> op.spec_access() == Some(WakerAccess::Store),
        op.pc is Finish ==> op.spec_access() == Some(
            WakerAccess::Exchange { current: 2, new: 1, weak: false },
        ),
        op.pc is Ready || op.pc is Pending ==> op.spec_access() is None,
{
}

/// The steps of a thread that wakes: it marks the task as woken, and takes the waker exactly where
/// the task waited.
pub proof fn law_steps_of_waking(op: WakerWake, reply: WakerReply)
    requires
        op.accepts(reply),
    ensures
        op.pc is Swap ==> {
            &&& op.spec_access() == Some(WakerAccess::Swap)
            &&& op.after(reply).pc is Take <==> reply->State_0 % 4 == 1
            &&& op.after(reply).pc is Left <==> reply->State_0 % 4 == 2
        },
        op.pc is Take ==> op.spec_access() == Some(WakerAccess::Take) && op.after(
            reply,
        ).pc is Taken,
        op.pc is Swap || op.pc is Take,
{
}

/// A poll says that the task has been woken only where it has been, and one that says that the task
/// waits has left its own waker to be taken, or the thread that wakes has taken it.
pub proof fn law_polls_tell_the_truth(w: Wakeup, n: nat)
    requires
        w.reachable(n),
    ensures
        w.ready || (w.poll matches Some(op) && op.pc is Ready) ==> w.marked(),
        (w.poll matches Some(op) && op.pc is Pending) || (w.poll is None && !w.ready) ==> {
            ||| w.stored == Some(w.polls)
            ||| w.handed == Some(w.polls)
        },
{
    super::system::lemma_reachable(w, n);
}

} // verus!
