//! The steps of the threads of a lock, by what they see, in terms of numbers.
use vstd::prelude::*;
use super::access::{Access, Reply};
use super::acquire::{Acquire, AcquirePc};
use super::release::{Release, ReleasePc};
use super::word::{ALIGN, LOCKED, UNLOCKED, WAKING};

verus! {

/// The parts of the word: the low byte says whether the lock is held, the next bit whether a thread
/// is being woken, and what is above them is the address of the newest waiter.
pub proof fn law_parts_of_the_word(state: usize)
    ensures
        UNLOCKED == 0 && LOCKED == 1 && WAKING == 256 && ALIGN == 512,
        super::word::byte(state) == state % 256,
        super::word::locked(state) == (state % 2 == 1),
        super::word::waking(state) == ((state / 256) % 2 == 1),
        super::word::head(state) == state - state % 512,
        super::word::head(state) == 0 <==> state < 512,
        super::word::wake_needed(state) == (state >= 512 && (state / 256) % 2 == 0 && state % 2
            == 0),
        super::word::is_address(state) == (state != 0 && state % 512 == 0),
        super::word::link(state) == if state == 0 {
            None
        } else {
            Some(state)
        },
{
}

/// Taking and freeing the lock write the low byte of the word and nothing else.
pub proof fn law_only_the_low_byte_is_written(state: usize)
    ensures
        super::word::with_byte_locked(state) % 256 == 1,
        super::word::with_byte_locked(state) / 256 == state / 256,
        super::word::with_byte_unlocked(state) % 256 == 0,
        super::word::with_byte_unlocked(state) / 256 == state / 256,
{
    let high: usize = (state - state % 256) as usize;
    assert(high % 256 == 0 && high / 256 == state / 256);
    assert((high + 1) % 256 == 1 && (high + 1) / 256 == state / 256);
}

/// A thread takes the lock by the swap of the low byte alone, exactly where it finds it free.
pub proof fn law_lock_is_taken_by_finding_it_free(op: Acquire, reply: Reply)
    requires
        op.wf(),
        op.accepts(reply),
    ensures
        op.after(reply).pc is Acquired <==> (op.pc is Fast || op.pc is Retry) && reply
            == Reply::Byte(0),
        op.spec_access() == Some(Access::SwapByte) <==> op.pc is Fast || op.pc is Retry,
        op.pc is Acquired <==> op.spec_access() is None,
        op.after(reply).me == op.me,
{
}

/// Where a thread goes from a word that it has seen. A lock that looks free is tried. Where nobody
/// waits yet, the thread spins ten times: on the processor for 2, 4 and 8 hints, and then by
/// yielding. Else it joins the waiters.
pub proof fn law_what_a_thread_does_with_a_word(op: Acquire, state: usize)
    requires
        op.wf(),
    ensures
        ({
            let next = op.seen(state);
            &&& state % 2 == 0 ==> next.pc is Retry && next.spin == op.spin
            &&& state % 2 == 1 && state < 512 && op.spin < 10 ==> {
                &&& next.spin == op.spin + 1
                &&& next.spin == 1 ==> next.pc == AcquirePc::Hint(2)
                &&& next.spin == 2 ==> next.pc == AcquirePc::Hint(4)
                &&& next.spin == 3 ==> next.pc == AcquirePc::Hint(8)
                &&& next.spin > 3 ==> next.pc is Yield
            }
            &&& state % 2 == 1 && (state >= 512 || op.spin >= 10) ==> next.pc == AcquirePc::Link(
                state,
            ) && next.spin == op.spin
            &&& next.me == op.me
        }),
{
}

/// The other steps of a thread that takes the lock. After a wait it looks at the word without its
/// waking bit, and has all its spins again.
pub proof fn law_steps_of_acquiring(op: Acquire, reply: Reply)
    requires
        op.wf(),
        op.accepts(reply),
    ensures
        ({
            let next = op.after(reply);
            &&& op.pc is Fast && reply != Reply::Byte(0) ==> next.pc is Load
            &&& op.pc is Retry && reply != Reply::Byte(0) ==> next.pc is Yield
            &&& op.pc is Load ==> next == op.seen(reply->Word_0)
            &&& op.pc is Yield || op.pc is Hint ==> next.pc is Load
            &&& op.pc matches AcquirePc::Link(state) ==> next.pc == AcquirePc::Publish(state)
            &&& op.pc is Publish && reply is Exchanged ==> next.pc is Check
            &&& op.pc is Publish && reply is Observed ==> next == op.seen(reply->Observed_0)
            &&& op.pc is Check ==> (next.pc is Rearm <==> reply == Reply::Flag(true)) && (
            next.pc is Park <==> reply == Reply::Flag(false))
            &&& op.pc is Park ==> next.pc is Check
            &&& op.pc is Rearm ==> next.pc is Unclaim && next.spin == 0
            &&& op.pc is Unclaim ==> next == op.seen((reply->Word_0 - 256) as usize)
            &&& !(op.pc is Rearm || op.pc is Load || op.pc is Publish || op.pc is Unclaim)
                ==> next.spin == op.spin
        }),
{
}

/// What a thread that joins the waiters asks of the memory: its waiter leads to the newest one, or
/// is the oldest itself; then it becomes the newest one, with the other bits as they were.
pub proof fn law_how_a_thread_joins_the_waiters(op: Acquire, state: usize)
    requires
        op.wf(),
    ensures
        op.pc == AcquirePc::Link(state) ==> (op.spec_access() matches Some(
            Access::Link { next, tail },
        ) && {
            &&& state < 512 ==> next is None && tail == Some(op.me)
            &&& state >= 512 ==> next == Some((state - state % 512) as usize) && tail is None
        }),
        op.pc == AcquirePc::Publish(state) ==> (op.spec_access() matches Some(
            Access::Exchange { current, new },
        ) && {
            &&& current == state
            &&& new % 512 == state % 512
            &&& new - new % 512 == op.me
        }),
        op.pc is Check ==> op.spec_access() == Some(Access::LoadNotified),
        op.pc is Park ==> op.spec_access() == Some(Access::Park),
        op.pc is Rearm ==> op.spec_access() == Some(Access::Rearm),
        op.pc is Unclaim ==> op.spec_access() == Some(Access::FetchSub),
        op.pc is Load ==> op.spec_access() == Some(Access::Load),
        op.pc is Yield ==> op.spec_access() == Some(Access::Yield),
        op.pc matches AcquirePc::Hint(n) ==> op.spec_access() == Some(Access::SpinHint(n)),
{
    if op.pc == AcquirePc::Publish(state) {
        let low = (state % 512) as int;
        let me = op.me as int;
        assert(me % 512 == 0 && 0 <= low < 512);
        assert(me + low <= usize::MAX) by {
            let max: usize = usize::MAX;
            assert(max <= !0usize) by (bit_vector);
            assert(max % 512 == 511) by (bit_vector)
                requires
                    max == !0usize,
            ;
        }
    }
}

/// A thread that has freed the lock goes on to wake exactly where somebody waits, nobody else is
/// waking, and nobody has taken the lock meanwhile.
pub proof fn law_when_a_thread_goes_on_to_wake(op: Release, reply: Reply)
    requires
        op.wf(),
        op.accepts(reply),
    ensures
        ({
            let next = op.after(reply).pc;
            let saw = match reply {
                Reply::Word(state) => state,
                Reply::Observed(state) => state,
                _ => 0,
            };
            let needed = saw >= 512 && (saw / 256) % 2 == 0 && saw % 2 == 0;
            &&& op.pc is Unlock ==> op.spec_access() == Some(Access::StoreByte) && next is Peek
            &&& op.pc is Peek ==> {
                &&& op.spec_access() == Some(Access::Load)
                &&& needed ==> next is Reload
                &&& !needed ==> next is Done
            }
            &&& op.pc is Reload || (op.pc is Claim && reply is Observed) ==> {
                &&& needed ==> next == (ReleasePc::Claim { state: saw })
                &&& !needed ==> next is Done
            }
            &&& op.pc is Reload ==> op.spec_access() == Some(Access::Load)
            &&& op.pc matches ReleasePc::Claim { state } ==> {
                &&& op.spec_access() matches Some(Access::Exchange { current, new }) && current
                    == state && new == state + 256
                &&& reply is Exchanged ==> next == (ReleasePc::FindTail {
                    state: (state + 256) as usize,
                })
            }
        }),
{
    if op.pc is Claim {
        super::release::lemma_claim(op.pc->Claim_state);
    }
}

/// A thread that wakes finds the oldest waiter: it asks the newest one, and where that one does not
/// know, it walks from waiter to waiter, lays the links back, and leaves what it finds with the
/// newest one.
pub proof fn law_how_the_oldest_waiter_is_found(op: Release, reply: Reply)
    requires
        op.wf(),
        op.accepts(reply),
    ensures
        ({
            let next = op.after(reply).pc;
            &&& op.pc matches ReleasePc::FindTail { state } ==> {
                &&& op.spec_access() == Some(Access::GetTail((state - state % 512) as usize))
                &&& reply == Reply::Address(None) ==> next == (ReleasePc::Walk {
                    state,
                    current: (state - state % 512) as usize,
                })
                &&& reply matches Reply::Address(Some(tail)) ==> {
                    &&& state % 2 == 1 ==> next == (ReleasePc::Abandon { state })
                    &&& state % 2 == 0 ==> next == (ReleasePc::Unlink { state, tail })
                }
            }
            &&& op.pc matches ReleasePc::Walk { state, current } ==> {
                &&& op.spec_access() == Some(Access::GetNext(current))
                &&& reply matches Reply::Address(Some(older)) ==> next == (ReleasePc::Back {
                    state,
                    current,
                    next: older,
                })
            }
            &&& op.pc matches ReleasePc::Back { state, current, next: older } ==> {
                &&& op.spec_access() == Some(Access::SetPrev(older, current))
                &&& next == (ReleasePc::Probe { state, current: older })
            }
            &&& op.pc matches ReleasePc::Probe { state, current } ==> {
                &&& op.spec_access() == Some(Access::GetTail(current))
                &&& reply == Reply::Address(None) ==> next == (ReleasePc::Walk { state, current })
                &&& reply matches Reply::Address(Some(tail)) ==> next == (ReleasePc::Cache {
                    state,
                    tail,
                })
            }
            &&& op.pc matches ReleasePc::Cache { state, tail } ==> {
                &&& op.spec_access() == Some(
                    Access::SetTail((state - state % 512) as usize, tail),
                )
                &&& state % 2 == 1 ==> next == (ReleasePc::Abandon { state })
                &&& state % 2 == 0 ==> next == (ReleasePc::Unlink { state, tail })
            }
        }),
{
}

/// A thread that wakes gives up the waking bit where the lock has been taken again; else it takes
/// the oldest waiter off the list, or off the word where it is the only one, and notifies exactly
/// that one.
pub proof fn law_how_the_oldest_waiter_is_notified(op: Release, reply: Reply)
    requires
        op.wf(),
        op.accepts(reply),
    ensures
        ({
            let next = op.after(reply).pc;
            &&& op.pc matches ReleasePc::Abandon { state } ==> {
                &&& op.spec_access() matches Some(Access::Exchange { current, new }) && current
                    == state && new == state - 256
                &&& reply is Exchanged ==> next is Done
                &&& reply matches Reply::Observed(seen) ==> next == (ReleasePc::FindTail {
                    state: seen,
                })
            }
            &&& op.pc matches ReleasePc::Unlink { state, tail } ==> {
                &&& op.spec_access() == Some(Access::GetPrev(tail))
                &&& reply == Reply::Address(None) ==> next == (ReleasePc::Clear { state, tail })
                &&& reply matches Reply::Address(Some(prev)) ==> next == (ReleasePc::Shorten {
                    state,
                    tail,
                    prev,
                })
            }
            &&& op.pc matches ReleasePc::Shorten { state, tail, prev } ==> {
                &&& op.spec_access() == Some(
                    Access::SetTail((state - state % 512) as usize, prev),
                )
                &&& next == (ReleasePc::Notify { tail })
            }
            &&& op.pc matches ReleasePc::Clear { state, tail } ==> {
                &&& op.spec_access() matches Some(Access::Exchange { current, new }) && current
                    == state && new == state % 2 + 256
                &&& reply is Exchanged ==> next == (ReleasePc::Notify { tail })
                &&& reply matches Reply::Observed(seen) ==> {
                    &&& seen >= 512 ==> next == (ReleasePc::FindTail { state: seen })
                    &&& seen < 512 ==> next == (ReleasePc::Clear { state: seen, tail })
                }
            }
            &&& op.pc matches ReleasePc::Notify { tail } ==> {
                &&& op.spec_access() == Some(Access::Notify(tail))
                &&& next is Done
            }
            &&& op.pc is Done ==> op.spec_access() is None
        }),
{
    if op.pc is Abandon {
        let state = op.pc->Abandon_state;
        super::word::lemma_bits(state);
    }
}

} // verus!
