//! What a thread does that leaves the lock while no other thread moves.
use vstd::prelude::*;
use super::release::{Release, ReleasePc};
use super::system::{Aux, Moment, Thread};

verus! {

/// Thread `k` makes a step.
pub open spec fn steps(m: Moment, m2: Moment, k: usize) -> bool {
    exists|exchanged: bool| #[trigger]
        m.system.step(m2.system, k, exchanged) && m.next_by(m2, k, exchanged)
}

/// Thread `k` makes `n` steps, and no other thread moves.
pub open spec fn alone(m: Moment, m2: Moment, k: usize, n: nat) -> bool
    decreases n,
{
    if n == 0 {
        m2 == m
    } else {
        exists|mid: Moment|
            #![trigger steps(mid, m2, k)]
            alone(m, mid, k, (n - 1) as nat) && steps(mid, m2, k)
    }
}

/// Whether somebody waits and nobody else is waking.
pub open spec fn to_wake(m: Moment) -> bool {
    m.waiting.len() > 0 && !super::word::waking(m.system.shared.word)
}

/// No thread other than `but` has been notified since.
pub open spec fn same_flags(m: Moment, m2: Moment, but: Option<usize>) -> bool {
    forall|j: usize| #[trigger]
        m.system.threads.contains_key(j) && but != Some(j) ==> m2.system.shared.nodes[j].notified
            == m.system.shared.nodes[j].notified
}

/// What holds on the way of thread `k`, which has begun to leave the lock at `m`.
spec fn on_its_way(m: Moment, m2: Moment, k: usize) -> bool {
    let word = m2.system.shared.word;
    let claimed = !super::word::locked(word) && super::word::waking(word) && to_wake(m)
        && m2.waiting == m.waiting && same_flags(m, m2, None);
    &&& m2.system.threads.dom() == m.system.threads.dom()
    &&& m2.system.threads[k] matches Thread::Releasing(op) && match op.pc {
        ReleasePc::Unlock => m2 == m,
        ReleasePc::Peek | ReleasePc::Reload => {
            &&& !super::word::locked(word)
            &&& super::word::waking(word) == super::word::waking(m.system.shared.word)
            &&& m2.waiting == m.waiting
            &&& same_flags(m, m2, None)
        },
        ReleasePc::Claim { state } => {
            &&& !super::word::locked(word)
            &&& super::word::waking(word) == super::word::waking(m.system.shared.word)
            &&& m2.waiting == m.waiting
            &&& same_flags(m, m2, None)
            &&& state == word
        },
        ReleasePc::FindTail { state } => claimed && state == word,
        ReleasePc::Walk { state, .. } => claimed && state == word,
        ReleasePc::Back { state, .. } => claimed && state == word,
        ReleasePc::Probe { state, .. } => claimed && state == word,
        ReleasePc::Cache { state, .. } => claimed && state == word,
        ReleasePc::Abandon { .. } => false,
        ReleasePc::Unlink { state, .. } => claimed && state == word,
        ReleasePc::Shorten { state, .. } => claimed && state == word,
        ReleasePc::Clear { state, .. } => claimed && state == word,
        ReleasePc::Notify { tail } => {
            &&& to_wake(m)
            &&& !super::word::locked(word)
            &&& super::word::waking(word)
            &&& tail == m.waiting.last()
            &&& m2.waiting == m.waiting.drop_last()
            &&& same_flags(m, m2, None)
        },
        ReleasePc::Done => {
            &&& !super::word::locked(word)
            &&& super::word::head(word) == 0 || super::word::waking(word)
            &&& if to_wake(m) {
                &&& m2.waiting == m.waiting.drop_last()
                &&& m2.system.shared.nodes[m.waiting.last()].notified
                &&& same_flags(m, m2, Some(m.waiting.last()))
            } else {
                &&& m2.waiting == m.waiting
                &&& same_flags(m, m2, None)
            }
        },
    }
}

/// The word leads to a waiter exactly where somebody waits, and a thread that leaves the lock keeps
/// words that allow what it is about to do.
proof fn lemma_now(m: Moment, a: Aux, k: usize)
    requires
        super::system::inv(m.system, a),
        a.queue == m.waiting,
        m.system.threads.contains_key(k),
    ensures
        (super::word::head(m.system.shared.word) != 0) == (m.waiting.len() > 0),
        m.system.threads.dom() == m.system.shared.nodes.dom(),
        m.system.threads[k] matches Thread::Releasing(op) ==> op.wf(),
{
    reveal(super::system::inv);
    assert(super::system::thread_inv(m.system, a, k));
    if a.queue.len() > 0 {
        let k = a.queue[0];
        assert(a.queue.contains(k));
        assert(super::system::thread_inv(m.system, a, k));
    }
}

/// One step more.
proof fn lemma_step(m: Moment, mid: Moment, m2: Moment, k: usize, a: Aux, exchanged: bool) -> (a2:
    Aux)
    requires
        super::system::inv(mid.system, a),
        a.queue == mid.waiting,
        m.system.threads.contains_key(k),
        on_its_way(m, mid, k),
        mid.system.step(m2.system, k, exchanged),
        mid.next_by(m2, k, exchanged),
    ensures
        super::system::inv(m2.system, a2),
        a2.queue == m2.waiting,
        on_its_way(m, m2, k),
{
    let word = mid.system.shared.word;
    let op = mid.system.threads[k]->Releasing_0;
    lemma_now(mid, a, k);
    let a2 = super::system::lemma_next(mid, a, m2, k, exchanged);
    assert(m2.system.threads.dom() =~= mid.system.threads.dom());
    super::word::lemma_byte(word);
    match op.pc {
        ReleasePc::Claim { .. } => {
            if exchanged {
                super::release::lemma_claim(word);
            }
        },
        ReleasePc::Clear { .. } => {
            if exchanged {
                super::word::lemma_split(word);
                super::word::lemma_parts(m2.system.shared.word, 0, 256);
            }
        },
        _ => {},
    }
    a2
}

/// The way from the first step on.
proof fn lemma_alone(m: Moment, m2: Moment, k: usize, a: Aux, n: nat) -> (a2: Aux)
    requires
        super::system::inv(m.system, a),
        a.queue == m.waiting,
        m.system.threads.contains_key(k),
        m.system.threads[k] == Thread::Releasing(Release { pc: ReleasePc::Unlock }),
        alone(m, m2, k, n),
    ensures
        super::system::inv(m2.system, a2),
        a2.queue == m2.waiting,
        on_its_way(m, m2, k),
    decreases n,
{
    if n == 0 {
        a
    } else {
        let mid = choose|mid: Moment|
            #![trigger steps(mid, m2, k)]
            alone(m, mid, k, (n - 1) as nat) && steps(mid, m2, k);
        let a1 = lemma_alone(m, mid, k, a, (n - 1) as nat);
        let exchanged = choose|exchanged: bool| #[trigger]
            mid.system.step(m2.system, k, exchanged) && mid.next_by(m2, k, exchanged);
        lemma_step(m, mid, m2, k, a1, exchanged)
    }
}

/// A thread that leaves the lock while no other one moves notifies exactly the thread that has
/// waited longest, and forgets none of the others: they wait on in their order. Where nobody waits,
/// or another thread is already waking, it notifies nobody and the list stays as it was. Either way
/// nobody is left to wait with no thread waking.
pub proof fn law_lone_release_wakes_the_oldest(m: Moment, n: nat, m2: Moment, k: usize, steps: nat)
    requires
        m.reachable(n),
        m.system.threads.contains_key(k),
        m.system.threads[k] == Thread::Releasing(Release { pc: ReleasePc::Unlock }),
        alone(m, m2, k, steps),
        m2.system.threads[k] == Thread::Releasing(Release { pc: ReleasePc::Done }),
    ensures
        !super::word::locked(m2.system.shared.word),
        to_wake(m) ==> {
            &&& m2.waiting == m.waiting.drop_last()
            &&& m2.system.shared.nodes[m.waiting.last()].notified
            &&& same_flags(m, m2, Some(m.waiting.last()))
        },
        !to_wake(m) ==> m2.waiting == m.waiting && same_flags(m, m2, None),
        (super::word::head(m2.system.shared.word) != 0) == (m2.waiting.len() > 0),
        super::word::head(m2.system.shared.word) == 0 || super::word::waking(
            m2.system.shared.word,
        ),
{
    let a = super::system::lemma_reachable(m, n);
    let a2 = lemma_alone(m, m2, k, a, steps);
    lemma_now(m2, a2, k);
}

} // verus!
