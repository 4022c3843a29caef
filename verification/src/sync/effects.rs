//! What the operations of this module do, in terms of numbers.
use vstd::prelude::*;
use super::backoff::{Backoff, Target, Vendor};
use super::mutex::{SpinAccess, SpinAcquire, SpinPc, SpinReply};
use super::signal::Signal;
use super::signal_machine::{
    Notify, NotifyPc, SignalAccess, SignalReply, Wait, WaitPc, EMPTY, NOTIFIED, WAITING, WAKING,
};

verus! {

/// How often a thread spins at most: 40 times on a POSIX system, never on a Windows machine whose
/// processor is from AMD, and else 6 times.
pub proof fn law_how_often_a_thread_spins(target: Target)
    ensures
        target is Posix ==> super::backoff::max_spin_of(target) == 40,
        target is Other ==> super::backoff::max_spin_of(target) == 6,
        target matches Target::WindowsX86(vendor) ==> {
            &&& vendor.text() == "AuthenticAMD"@ ==> super::backoff::max_spin_of(target) == 0
            &&& vendor.text() != "AuthenticAMD"@ ==> super::backoff::max_spin_of(target) == 6
        },
{
}

/// The name of a vendor is read from three registers, four characters each, lowest byte first.
pub proof fn law_name_of_a_vendor(vendor: Vendor)
    ensures
        vendor.text().len() == 12,
        vendor.text()[0] as int == vendor.ebx % 256,
        vendor.text()[1] as int == (vendor.ebx / 256) % 256,
        vendor.text()[2] as int == (vendor.ebx / 65536) % 256,
        vendor.text()[3] as int == vendor.ebx / 16777216,
        vendor.text()[4] as int == vendor.edx % 256,
        vendor.text()[5] as int == (vendor.edx / 256) % 256,
        vendor.text()[6] as int == (vendor.edx / 65536) % 256,
        vendor.text()[7] as int == vendor.edx / 16777216,
        vendor.text()[8] as int == vendor.ecx % 256,
        vendor.text()[9] as int == (vendor.ecx / 256) % 256,
        vendor.text()[10] as int == (vendor.ecx / 65536) % 256,
        vendor.text()[11] as int == vendor.ecx / 16777216,
{
}

/// A thread that counts a spin has one left less, and none where it has counted them all; then the
/// count stays.
pub proof fn law_spins_run_out(backoff: Backoff)
    ensures
        backoff.can_spin() == (backoff.iteration < backoff.max_spin),
        backoff.iteration < backoff.max_spin ==> backoff.spun().iteration == backoff.iteration + 1,
        backoff.iteration >= backoff.max_spin ==> backoff.spun().iteration == backoff.iteration,
        backoff.spun().max_spin == backoff.max_spin,
{
}

/// How long a thread stays on the processor: at least 100 times, and from its seventh spin on twice
/// as long each time.
pub proof fn law_how_long_a_thread_spins(iteration: nat)
    ensures
        iteration <= 6 || iteration >= 31 ==> super::backoff::hints_of(iteration) == 100,
        super::backoff::hints_of(7) == 128,
        7 <= iteration < 30 ==> super::backoff::hints_of(iteration + 1) == 2
            * super::backoff::hints_of(iteration),
{
    vstd::arithmetic::power2::lemma2_to64();
    if iteration <= 6 {
        if iteration < 6 {
            vstd::arithmetic::power2::lemma_pow2_strictly_increases(iteration, 6);
        }
    } else if iteration < 30 {
        vstd::arithmetic::power2::lemma_pow2_unfold(iteration + 1);
        if iteration > 7 {
            vstd::arithmetic::power2::lemma_pow2_strictly_increases(7, iteration);
        }
    }
}

/// A thread takes a spinning lock exactly where it has found the flag clear and then set it itself.
/// Where it fails it pauses, and then looks again.
pub proof fn law_steps_of_spinning(op: SpinAcquire, reply: SpinReply)
    requires
        op.accepts(reply),
    ensures
        ({
            let next = op.after(reply);
            &&& next.pc is Acquired <==> op.pc is Try && reply is Exchanged
            &&& op.pc is Look ==> op.spec_access() == Some(SpinAccess::Load) && (next.pc is Try
                <==> reply == SpinReply::Flag(false))
            &&& op.pc is Try ==> op.spec_access() == Some(SpinAccess::Exchange)
            &&& (op.pc is Look && reply == SpinReply::Flag(true)) || (op.pc is Try
                && reply is Observed) ==> {
                &&& next.pc is Pause
                &&& op.yields ==> next.spin == op.spin
                &&& !op.yields && op.spin < usize::MAX ==> next.spin == op.spin + 1
            }
            &&& op.pc is Pause ==> next.pc is Look && next.spin == op.spin
            &&& next.yields == op.yields
        }),
{
}

/// How a thread pauses that has found a spinning lock taken: it yields, or it stays on the processor
/// as often as it has failed, but not more than 100 times.
pub proof fn law_how_a_thread_pauses(op: SpinAcquire)
    requires
        op.pc is Pause,
    ensures
        op.yields ==> op.spec_access() == Some(SpinAccess::Yield),
        !op.yields && op.spin <= 100 ==> op.spec_access() == Some(SpinAccess::Hint(op.spin)),
        !op.yields && op.spin > 100 ==> op.spec_access() == Some(SpinAccess::Hint(100)),
{
}

/// The parts of the word of a signal: a notification, a wake token, and the number of threads that
/// wait.
pub proof fn law_parts_of_a_signal(word: usize)
    ensures
        EMPTY == 0 && NOTIFIED == 1 && WAKING == 2 && WAITING == 4,
        super::signal_machine::notified(word) == (word % 2 == 1),
        super::signal_machine::waking(word) == ((word / 2) % 2 == 1),
        super::signal_machine::waiting(word) == word / 4,
        super::signal_machine::occupied(word) == ((word / 4) % 2 == 1),
{
}

/// Notifying stores a notification, unless there is one; the number of waiting threads stays. A wake
/// token goes with it where that number is odd, and a permit where no token was out.
pub proof fn law_notifying(signal: Signal)
    requires
        signal.permits < usize::MAX,
    ensures
        ({
            let after = signal.with_notification();
            let odd = (signal.waiters / 4) % 2 == 1;
            let token = (signal.waiters / 2) % 2 == 1;
            &&& after.waiters % 2 == 1
            &&& after.waiters / 4 == signal.waiters / 4
            &&& signal.waiters % 2 == 1 ==> after == signal
            &&& signal.waiters % 2 == 0 ==> {
                &&& (after.waiters / 2) % 2 == if odd || token {
                    1usize
                } else {
                    0
                }
                &&& after.permits == signal.permits + if odd && !token {
                    1int
                } else {
                    0
                }
            }
        }),
{
    super::signal_machine::lemma_bits(signal.waiters);
    let word = signal.waiters;
    let n = (word % 2) as int;
    let t = ((word / 2) % 2) as int;
    let c = (word / 4) as int;
    assert(word == n + 2 * t + 4 * c);
    if n == 0 {
        let max: usize = usize::MAX;
        assert(max <= !0usize) by (bit_vector);
        assert(max % 4 == 3) by (bit_vector)
            requires
                max == !0usize,
        ;
        assert(word % 4 == n + 2 * t);
        assert(word - word % 4 + 3 <= usize::MAX);
    }
}

/// A notification that was given is there to be taken, and giving another one changes nothing.
pub proof fn law_notification_is_there_once(signal: Signal)
    requires
        signal.permits < usize::MAX,
    ensures
        signal.with_notification().notified(),
        signal.with_notification().with_notification() == signal.with_notification(),
{
    law_notifying(signal);
}

/// Taking a permit takes the wake token with it; without a permit nothing changes.
pub proof fn law_taking_a_permit(signal: Signal)
    requires
        signal.settled(),
    ensures
        signal.permits <= 1,
        signal.permits == 1 ==> {
            let after = signal.without_permit();
            &&& after.permits == 0
            &&& after.waiters + 2 == signal.waiters
            &&& (after.waiters / 2) % 2 == 0
        },
        signal.permits == 0 ==> signal.without_permit() == signal,
{
}

/// The steps of a thread that notifies: it stores a notification in a word that holds none, and adds
/// a permit exactly where it has issued the wake token.
pub proof fn law_steps_of_notifying(op: Notify, reply: SignalReply)
    requires
        op.wf(),
        op.accepts(reply),
    ensures
        ({
            let next = op.after(reply).pc;
            let saw = match reply {
                SignalReply::Word(word) => word,
                SignalReply::Observed(word) => word,
                _ => 0,
            };
            &&& op.pc is Load ==> op.spec_access() == Some(SignalAccess::Load)
            &&& op.pc is Load || (op.pc is Store && reply is Observed) ==> {
                &&& saw % 2 == 1 ==> next is Done
                &&& saw % 2 == 0 ==> next == NotifyPc::Store(saw)
            }
            &&& op.pc matches NotifyPc::Store(word) ==> {
                &&& op.spec_access() matches Some(SignalAccess::Exchange { current, new })
                    && current == word && new == super::signal_machine::notify_word(word)
                &&& reply is Exchanged ==> (next is Release <==> (word / 4) % 2 == 1 && (word / 2)
                    % 2 == 0) && (next is Release || next is Done)
            }
            &&& op.pc is Release ==> op.spec_access() == Some(SignalAccess::Release) && next is Done
        }),
{
}

/// Where a thread that waits goes from a word that it has seen: to the notification where there is
/// one, to another spin where nobody waits and it has one left, and else to sleep, entering itself
/// first where it has not.
pub proof fn law_what_a_waiting_thread_does_with_a_word(op: Wait, word: usize)
    ensures
        ({
            let next = op.seen(word);
            &&& word % 2 == 1 ==> next.pc == WaitPc::Consume(word) && next.backoff == op.backoff
            &&& word % 2 == 0 && word < 4 && op.backoff.iteration < op.backoff.max_spin ==> {
                &&& next.pc is Pause
                &&& next.backoff.iteration == op.backoff.iteration + 1
            }
            &&& word % 2 == 0 && (word >= 4 || op.backoff.iteration >= op.backoff.max_spin) ==> {
                &&& op.is_waiting ==> next.pc is Sleep
                &&& !op.is_waiting ==> next.pc == WaitPc::Enter(word)
                &&& next.backoff == op.backoff
            }
            &&& next.is_waiting == op.is_waiting
            &&& next.backoff.max_spin == op.backoff.max_spin
        }),
{
}

/// The steps of a thread that waits. It ends notified exactly by taking a notification, and timed
/// out exactly by running out of time; then it is no longer counted.
pub proof fn law_steps_of_waiting(op: Wait, reply: SignalReply)
    requires
        op.wf(),
        op.accepts(reply),
    ensures
        ({
            let next = op.after(reply);
            &&& next.pc is Notified <==> op.pc is Consume && reply is Exchanged
            &&& next.pc is TimedOut <==> op.pc is Leave
            &&& op.pc is Load ==> next == op.seen(reply->Word_0)
            &&& reply is Observed ==> next == op.seen(reply->Observed_0)
            &&& op.pc is Pause ==> next.pc is Load
            &&& op.pc is Enter && reply is Exchanged ==> next.pc is Sleep && next.is_waiting
            &&& op.pc is Sleep ==> {
                &&& reply->timed_out ==> next.pc is Leave
                &&& !reply->timed_out ==> next.pc is Unwake && next.backoff.iteration == 0
            }
            &&& op.pc is Unwake ==> next == op.seen((reply->Word_0 - 2) as usize)
        }),
{
}

/// What a thread that waits asks of the memory. Taking a notification takes it off the word, and the
/// thread itself where it is counted; entering counts one thread more.
pub proof fn law_accesses_of_waiting(op: Wait)
    requires
        op.wf(),
    ensures
        op.pc is Load ==> op.spec_access() == Some(SignalAccess::Load),
        op.pc matches WaitPc::Consume(word) ==> (op.spec_access() matches Some(
            SignalAccess::Exchange { current, new },
        ) && current == word && new == word - 1 - if op.is_waiting {
            4int
        } else {
            0
        }),
        op.pc is Pause ==> op.spec_access() == Some(SignalAccess::Pause),
        op.pc matches WaitPc::Enter(word) ==> (op.spec_access() matches Some(
            SignalAccess::Exchange { current, new },
        ) && current == word && new == word + 4),
        op.pc is Sleep ==> op.spec_access() == Some(SignalAccess::Acquire),
        op.pc is Leave ==> op.spec_access() == Some(SignalAccess::FetchSub(4)),
        op.pc is Unwake ==> op.spec_access() == Some(SignalAccess::FetchSub(2)),
        op.pc is Notified || op.pc is TimedOut ==> op.spec_access() is None,
{
}

} // verus!
