//! What holds of a lock whatever its threads do.
//!
//! Any number of threads take and leave the lock, each one access at a time, in any order. The
//! accesses of all threads are taken to follow one another: which ordering each of them needs on a
//! machine for that is not said here.
use vstd::prelude::*;
use super::access::{Access, Reply};
use super::acquire::{Acquire, AcquirePc};
use super::memory::{LockWaiter, Shared};
use super::release::{Release, ReleasePc};
use super::word::UNLOCKED;

verus! {

/// What a thread does with the lock.
pub ghost enum Thread {
    /// Nothing.
    Idle,
    /// Takes it, or holds it once it has.
    Acquiring(Acquire),
    /// Leaves it.
    Releasing(Release),
}

impl Thread {
    /// What the thread does next, if anything.
    pub open spec fn access(self) -> Option<Access> {
        match self {
            Thread::Idle => None,
            Thread::Acquiring(op) => op.spec_access(),
            Thread::Releasing(op) => op.spec_access(),
        }
    }

    /// Whether the thread can go on from `reply`.
    pub open spec fn accepts(self, reply: Reply) -> bool {
        match self {
            Thread::Idle => false,
            Thread::Acquiring(op) => op.wf() && op.accepts(reply),
            Thread::Releasing(op) => op.wf() && op.accepts(reply),
        }
    }

    /// Where the thread stands after `reply`.
    pub open spec fn after(self, reply: Reply) -> Thread {
        match self {
            Thread::Idle => Thread::Idle,
            Thread::Acquiring(op) => Thread::Acquiring(op.after(reply)),
            Thread::Releasing(op) => Thread::Releasing(op.after(reply)),
        }
    }

    /// Whether the thread is in the section that the lock guards.
    pub open spec fn holds(self) -> bool {
        match self {
            Thread::Idle => false,
            Thread::Acquiring(op) => op.pc is Acquired,
            Thread::Releasing(op) => op.pc is Unlock,
        }
    }

    /// Whether the thread sleeps until somebody wakes it.
    pub open spec fn waits(self) -> bool {
        self matches Thread::Acquiring(op) && (op.pc is Check || op.pc is Park)
    }

    /// Whether the thread owns the waking bit, being the one that wakes.
    pub open spec fn is_waking(self) -> bool {
        self matches Thread::Releasing(op) && match op.pc {
            ReleasePc::Unlock => false,
            ReleasePc::Peek => false,
            ReleasePc::Reload => false,
            ReleasePc::Claim { .. } => false,
            ReleasePc::Done => false,
            _ => true,
        }
    }

    /// Whether the thread neither sleeps nor is done: it is on its way to take the lock, or it is
    /// still looking for somebody to wake.
    pub open spec fn is_active(self) -> bool {
        match self {
            Thread::Idle => false,
            Thread::Acquiring(op) => !self.waits() && !self.holds(),
            Thread::Releasing(op) => op.pc is Peek || op.pc is Reload || op.pc is Claim,
        }
    }
}

/// A lock and the threads that use it, by the addresses of their waiters.
pub ghost struct System {
    pub shared: Shared,
    pub threads: Map<usize, Thread>,
}

impl System {
    /// A lock that nobody has used yet.
    pub open spec fn init(self) -> bool {
        &&& self.shared.word == UNLOCKED
        &&& self.threads.dom() == self.shared.nodes.dom()
        &&& forall|k: usize| #[trigger]
            self.threads.contains_key(k) ==> {
                &&& super::word::is_address(k)
                &&& self.threads[k] is Idle
                &&& self.shared.nodes[k].fresh()
            }
    }

    /// Thread `k` makes the access that it is about to make.
    pub open spec fn step(self, next: System, k: usize, exchanged: bool) -> bool {
        let access = self.threads[k].access();
        &&& self.threads.contains_key(k)
        &&& access is Some
        &&& self.shared.allows(k, access->0, exchanged)
        &&& next.shared == self.shared.after(k, access->0, exchanged)
        &&& next.threads == self.threads.insert(
            k,
            self.threads[k].after(self.shared.reply(k, access->0, exchanged)),
        )
    }

    /// Thread `k` starts to take the lock, or starts to leave it, or is done leaving it.
    pub open spec fn turn(self, next: System, k: usize) -> bool {
        &&& self.threads.contains_key(k)
        &&& next.shared == self.shared
        &&& {
            ||| {
                &&& self.threads[k] is Idle
                &&& next.threads == self.threads.insert(
                    k,
                    Thread::Acquiring(Acquire { me: k, spin: 0, pc: AcquirePc::Fast }),
                )
            }
            ||| {
                &&& self.threads[k] matches Thread::Acquiring(op) && op.pc is Acquired
                &&& next.threads == self.threads.insert(
                    k,
                    Thread::Releasing(Release { pc: ReleasePc::Unlock }),
                )
            }
            ||| {
                &&& self.threads[k] matches Thread::Releasing(op) && op.pc is Done
                &&& next.threads == self.threads.insert(k, Thread::Idle)
            }
        }
    }
}

/// What the invariant says beyond the state: who holds the lock, who owns the waking bit, who is in
/// the list, newest first, where in the list the oldest waiter is known, and how far the thread
/// that wakes has come.
pub ghost struct Aux {
    pub holder: Option<usize>,
    pub waker: Option<usize>,
    pub queue: Seq<usize>,
    /// Position of the first waiter that knows the oldest one.
    pub marker: int,
    /// Position of the waiter that the thread that wakes takes for the newest one.
    pub seen: int,
    /// Position of the waiter that the thread that wakes has reached.
    pub at: int,
}

/// The newest waiter of a list, 0 where there is none.
pub open spec fn front(queue: Seq<usize>) -> usize {
    if queue.len() == 0 {
        0
    } else {
        queue[0]
    }
}

/// The word says who holds the lock, whether somebody is being woken, and who is the newest waiter.
pub open spec fn word_inv(s: System, a: Aux) -> bool {
    &&& s.shared.word % 256 <= 1
    &&& super::word::locked(s.shared.word) == (a.holder is Some)
    &&& super::word::waking(s.shared.word) == (a.waker is Some)
    &&& super::word::head(s.shared.word) == front(a.queue)
}

/// The links of the list.
pub open spec fn list_inv(nodes: Map<usize, LockWaiter>, a: Aux) -> bool {
    let q = a.queue;
    &&& q.no_duplicates()
    &&& forall|i: int| 0 <= i < q.len() ==> nodes.contains_key(#[trigger] q[i])
    &&& forall|i: int, j: int|
        #![trigger q[i], q[j]]
        0 <= i < q.len() && j == i + 1 && j < q.len() ==> nodes[q[i]].next == Some(q[j])
    &&& q.len() > 0 ==> {
        &&& 0 <= a.marker < q.len()
        &&& nodes[q[a.marker]].tail == Some(q.last())
        &&& nodes[q[0]].prev is None
        &&& forall|i: int| 0 <= i < a.marker ==> (#[trigger] nodes[q[i]]).tail is None
        &&& linked(nodes, q, a.marker, q.len() - 1)
    }
}

/// The links to newer waiters are laid after position `from`, up to position `to`.
pub open spec fn linked(nodes: Map<usize, LockWaiter>, q: Seq<usize>, from: int, to: int) -> bool {
    forall|i: int, j: int|
        #![trigger q[i], q[j]]
        from <= i && j == i + 1 && j <= to ==> nodes[q[j]].prev == Some(q[i])
}

/// What is known of thread `k` and its waiter.
pub open spec fn thread_inv(s: System, a: Aux, k: usize) -> bool {
    let node = s.shared.nodes[k];
    &&& super::word::is_address(k)
    &&& s.threads[k].holds() == (a.holder == Some(k))
    &&& (s.threads[k].is_waking() || node.notified || (s.threads[k] matches Thread::Acquiring(op)
        && op.pc is Unclaim)) == (a.waker == Some(k))
    &&& a.queue.contains(k) ==> s.threads[k].waits() && !node.notified
    &&& match s.threads[k] {
        Thread::Idle => node.fresh(),
        Thread::Acquiring(op) => {
            &&& op.me == k
            &&& op.wf()
            &&& match op.pc {
                AcquirePc::Check | AcquirePc::Park => {
                    ||| node.notified
                    ||| a.queue.contains(k)
                    ||| in_hand(s, a, k)
                },
                AcquirePc::Rearm => node.notified,
                AcquirePc::Link(state) => node.fresh() && super::word::locked(state),
                AcquirePc::Publish(state) => {
                    &&& node.fresh()
                    &&& super::word::locked(state)
                    &&& node.next == super::word::link(super::word::head(state))
                    &&& node.tail == if super::word::head(state) == 0 {
                        Some(k)
                    } else {
                        None
                    }
                },
                _ => node.fresh(),
            }
        },
        Thread::Releasing(op) => op.wf() && node.fresh(),
    }
}

/// Whether waiter `k` has been taken off the list by the thread that wakes, and not been notified.
pub open spec fn in_hand(s: System, a: Aux, k: usize) -> bool {
    &&& a.waker is Some
    &&& s.threads[a.waker->0] == Thread::Releasing(Release { pc: ReleasePc::Notify { tail: k } })
}

/// What the thread that wakes knows of the list, where it has seen the word `state`.
pub open spec fn seen_inv(s: System, a: Aux, state: usize) -> bool {
    let q = a.queue;
    &&& 0 <= a.seen < q.len()
    &&& super::word::head(state) == q[a.seen]
    &&& a.seen <= a.marker
    &&& unlinked(s.shared.nodes, q, a.seen)
}

/// No links to newer waiters are laid up to position `to`.
pub open spec fn unlinked(nodes: Map<usize, LockWaiter>, q: Seq<usize>, to: int) -> bool {
    forall|i: int| 0 <= i <= to ==> (#[trigger] nodes[q[i]]).prev is None
}

/// What is known of the thread that owns the waking bit, at each point of its way.
pub open spec fn waker_inv(s: System, a: Aux) -> bool {
    let q = a.queue;
    let nodes = s.shared.nodes;
    a.waker matches Some(w) ==> {
        &&& s.threads.contains_key(w)
        &&& s.threads[w] matches Thread::Releasing(op) ==> match op.pc {
            ReleasePc::FindTail { state } => seen_inv(s, a, state),
            ReleasePc::Walk { state, current } => {
                &&& seen_inv(s, a, state)
                &&& a.seen <= a.at < a.marker
                &&& current == q[a.at]
                &&& linked(nodes, q, a.seen, a.at)
            },
            ReleasePc::Back { state, current, next } => {
                &&& seen_inv(s, a, state)
                &&& a.seen <= a.at < a.marker
                &&& current == q[a.at]
                &&& next == q[a.at + 1]
                &&& linked(nodes, q, a.seen, a.at)
            },
            ReleasePc::Probe { state, current } => {
                &&& seen_inv(s, a, state)
                &&& a.seen < a.at <= a.marker
                &&& current == q[a.at]
                &&& linked(nodes, q, a.seen, a.at)
            },
            ReleasePc::Cache { state, tail } => {
                &&& seen_inv(s, a, state)
                &&& tail == q.last()
                &&& linked(nodes, q, a.seen, q.len() - 1)
            },
            ReleasePc::Abandon { state } => seen_inv(s, a, state),
            ReleasePc::Unlink { state, tail } => {
                &&& seen_inv(s, a, state)
                &&& tail == q.last()
                &&& a.marker == a.seen
            },
            ReleasePc::Shorten { state, tail, prev } => {
                &&& seen_inv(s, a, state)
                &&& tail == q.last()
                &&& a.marker == a.seen
                &&& a.seen <= q.len() - 2
                &&& prev == q[q.len() - 2]
            },
            ReleasePc::Clear { state, tail } => {
                &&& seen_inv(s, a, state)
                &&& tail == q.last()
                &&& a.seen == q.len() - 1
            },
            ReleasePc::Notify { tail } => {
                &&& s.threads.contains_key(tail)
                &&& s.threads[tail].waits()
                &&& !nodes[tail].notified
                &&& !q.contains(tail)
            },
            _ => true,
        }
    }
}

/// While somebody waits for a lock that is free, and nobody is being woken, some thread is active.
pub open spec fn progress_inv(s: System, a: Aux) -> bool {
    a.queue.len() > 0 && a.holder is None && a.waker is None ==> exists|k: usize|
        #![trigger s.threads[k]]
        s.threads.contains_key(k) && s.threads[k].is_active()
}

/// What holds at every moment.
#[verifier::opaque]
pub open spec fn inv(s: System, a: Aux) -> bool {
    &&& s.threads.dom() == s.shared.nodes.dom()
    &&& a.holder matches Some(h) ==> s.threads.contains_key(h)
    &&& word_inv(s, a)
    &&& list_inv(s.shared.nodes, a)
    &&& waker_inv(s, a)
    &&& forall|k: usize| #[trigger] s.threads.contains_key(k) ==> thread_inv(s, a, k)
    &&& progress_inv(s, a)
}

proof fn lemma_init(s: System) -> (a: Aux)
    requires
        s.init(),
    ensures
        inv(s, a),
{
    reveal(inv);
    let a = Aux { holder: None, waker: None, queue: Seq::empty(), marker: 0, seen: 0, at: 0 };
    assert(s.threads.dom() =~= s.shared.nodes.dom());
    assert forall|k: usize| #[trigger] s.threads.contains_key(k) implies thread_inv(s, a, k) by {
        assert(s.shared.nodes[k].fresh());
    }
    a
}

proof fn lemma_turn(s: System, a: Aux, s2: System, k: usize)
    requires
        inv(s, a),
        s.turn(s2, k),
    ensures
        inv(s2, a),
{
    reveal(inv);
    assert(thread_inv(s, a, k));
    assert(s2.threads.dom() =~= s.threads.dom());
    assert forall|j: usize| #[trigger] s2.threads.contains_key(j) implies thread_inv(s2, a, j) by {
        assert(s.threads.contains_key(j));
        assert(thread_inv(s, a, j));
    }
    assert(waker_inv(s2, a));
    if a.queue.len() > 0 && a.holder is None && a.waker is None {
        let w = choose|w: usize|
            #![trigger s.threads[w]]
            s.threads.contains_key(w) && s.threads[w].is_active();
        assert(w != k);
        assert(s2.threads[w] == s.threads[w]);
    }
}

/// Accesses that leave the memory alone.
proof fn lemma_look(s: System, a: Aux, s2: System, k: usize, exchanged: bool)
    requires
        inv(s, a),
        s.step(s2, k, exchanged),
        s.threads[k] matches Thread::Acquiring(op) && (op.pc is Load || op.pc is Yield
            || op.pc is Hint || op.pc is Check || op.pc is Park || (op.pc is Publish
            && !exchanged)),
    ensures
        inv(s2, a),
{
    reveal(inv);
    assert(thread_inv(s, a, k));
    assert(s2.threads.dom() =~= s.threads.dom());
    assert forall|j: usize| #[trigger] s2.threads.contains_key(j) implies thread_inv(s2, a, j) by {
        assert(s.threads.contains_key(j));
        assert(thread_inv(s, a, j));
    }
    assert(waker_inv(s2, a));
    if a.queue.len() > 0 && a.holder is None && a.waker is None {
        let w = choose|w: usize|
            #![trigger s.threads[w]]
            s.threads.contains_key(w) && s.threads[w].is_active();
        assert(s2.threads[w].is_active());
    }
}

/// Trying the lock.
proof fn lemma_swap(s: System, a: Aux, s2: System, k: usize, exchanged: bool) -> (a2: Aux)
    requires
        inv(s, a),
        s.step(s2, k, exchanged),
        s.threads[k] matches Thread::Acquiring(op) && (op.pc is Fast || op.pc is Retry),
    ensures
        inv(s2, a2),
        a2.queue == a.queue,
{
    reveal(inv);
    assert(thread_inv(s, a, k));
    assert(s2.threads.dom() =~= s.threads.dom());
    super::word::lemma_byte(s.shared.word);
    let free = super::word::byte(s.shared.word) == UNLOCKED;
    let a2 = if free {
        Aux { holder: Some(k), ..a }
    } else {
        a
    };
    assert(free == (a.holder is None));
    assert forall|j: usize| #[trigger] s2.threads.contains_key(j) implies thread_inv(s2, a2, j) by {
        assert(s.threads.contains_key(j));
        assert(thread_inv(s, a, j));
    }
    assert(waker_inv(s2, a2));
    a2
}

/// Writing the own waiter while nobody else looks at it.
proof fn lemma_own(s: System, a: Aux, s2: System, k: usize, exchanged: bool)
    requires
        inv(s, a),
        s.step(s2, k, exchanged),
        s.threads[k] matches Thread::Acquiring(op) && (op.pc is Link || op.pc is Rearm),
    ensures
        inv(s2, a),
{
    reveal(inv);
    assert(thread_inv(s, a, k));
    assert(!a.queue.contains(k));
    assert(s2.threads.dom() =~= s.threads.dom());
    assert(s2.shared.nodes.dom() =~= s.shared.nodes.dom());
    assert forall|i: int| 0 <= i < a.queue.len() implies s2.shared.nodes[#[trigger] a.queue[i]]
        == s.shared.nodes[a.queue[i]] by {
        assert(a.queue.contains(a.queue[i]));
    }
    assert forall|j: usize| #[trigger] s2.threads.contains_key(j) implies thread_inv(s2, a, j) by {
        assert(s.threads.contains_key(j));
        assert(thread_inv(s, a, j));
    }
    assert(list_inv(s2.shared.nodes, a));
    assert(waker_inv(s2, a));
    if a.queue.len() > 0 && a.holder is None && a.waker is None {
        let w = choose|w: usize|
            #![trigger s.threads[w]]
            s.threads.contains_key(w) && s.threads[w].is_active();
        assert(s2.threads[w].is_active());
    }
}

/// Giving the waking bit back.
proof fn lemma_unclaim(s: System, a: Aux, s2: System, k: usize, exchanged: bool) -> (a2: Aux)
    requires
        inv(s, a),
        s.step(s2, k, exchanged),
        s.threads[k] matches Thread::Acquiring(op) && op.pc is Unclaim,
    ensures
        inv(s2, a2),
        a2.queue == a.queue,
{
    reveal(inv);
    assert(thread_inv(s, a, k));
    assert(a.waker == Some(k));
    assert(s2.threads.dom() =~= s.threads.dom());
    let a2 = Aux { waker: None, ..a };
    let word = s.shared.word;
    super::word::lemma_split(word);
    super::word::lemma_parts(s2.shared.word, super::word::head(word), word % 512 - 256);
    assert forall|j: usize| #[trigger] s2.threads.contains_key(j) implies thread_inv(s2, a2, j) by {
        assert(s.threads.contains_key(j));
        assert(thread_inv(s, a, j));
    }
    if a2.queue.len() > 0 && a2.holder is None {
        assert(s2.threads[k].is_active());
    }
    a2
}

/// The witness of the invariant after the waiter at `k` has joined the list.
spec fn joined(a: Aux, k: usize) -> Aux {
    Aux {
        queue: seq![k] + a.queue,
        marker: if a.queue.len() == 0 {
            0
        } else {
            a.marker + 1
        },
        seen: a.seen + 1,
        at: a.at + 1,
        ..a
    }
}

/// Joining the list keeps its links.
proof fn lemma_join_list(nodes: Map<usize, LockWaiter>, a: Aux, k: usize)
    requires
        list_inv(nodes, a),
        !a.queue.contains(k),
        nodes.contains_key(k),
        nodes[k].prev is None,
        nodes[k].next == super::word::link(front(a.queue)),
        nodes[k].tail == if a.queue.len() == 0 {
            Some(k)
        } else {
            None
        },
        a.queue.len() > 0 ==> front(a.queue) != 0,
    ensures
        list_inv(nodes, joined(a, k)),
        forall|j: usize| #[trigger]
            joined(a, k).queue.contains(j) == (j == k || a.queue.contains(j)),
{
    let q = a.queue;
    let q2 = seq![k] + q;
    let a2 = joined(a, k);
    assert forall|i: int| 1 <= i < q2.len() implies #[trigger] q2[i] == q[i - 1] by {}
    assert(q2.no_duplicates()) by {
        assert forall|i: int, j: int|
            0 <= i < q2.len() && 0 <= j < q2.len() && i != j implies q2[i] != q2[j] by {
            if i == 0 {
                assert(q.contains(q[j - 1]));
            } else if j == 0 {
                assert(q.contains(q[i - 1]));
            }
        }
    }
    assert(q2.last() == if q.len() == 0 {
        k
    } else {
        q.last()
    });
    assert forall|j: usize| #[trigger] q2.contains(j) == (j == k || q.contains(j)) by {
        if q.contains(j) {
            let i = choose|i: int| 0 <= i < q.len() && q[i] == j;
            assert(q2[i + 1] == j);
        }
        if j == k {
            assert(q2[0] == k);
        }
    }
    assert forall|i: int, j: int|
        #![trigger q2[i], q2[j]]
        0 <= i < q2.len() && j == i + 1 && j < q2.len() implies nodes[q2[i]].next == Some(
        q2[j],
    ) by {
        if i > 0 {
            assert(nodes[q[i - 1]].next == Some(q[j - 1]));
        }
    }
    assert forall|i: int| 0 <= i < q2.len() implies nodes.contains_key(#[trigger] q2[i]) by {
        if i > 0 {
            assert(nodes.contains_key(q[i - 1]));
        }
    }
    if q.len() > 0 {
        assert forall|i: int| 0 <= i < a2.marker implies (#[trigger] nodes[q2[i]]).tail is None by {
            if i > 0 {
                assert(nodes[q[i - 1]].tail is None);
            }
        }
        lemma_linked_push(nodes, q, k, a.marker, q.len() - 1);
    }
}

/// Joining the list keeps what the thread that wakes knows of it.
proof fn lemma_join_waker(s: System, a: Aux, s2: System, k: usize)
    requires
        waker_inv(s, a),
        list_inv(s.shared.nodes, a),
        s.threads.contains_key(k),
        a.waker is Some ==> a.waker != Some(k),
        s2.shared.nodes == s.shared.nodes,
        forall|j: usize| #[trigger]
            s.threads.contains_key(j) && j != k ==> s2.threads.contains_key(j) && s2.threads[j]
                == s.threads[j],
        s.threads[k] matches Thread::Acquiring(op) && op.pc is Publish,
        s.shared.nodes[k].prev is None,
    ensures
        waker_inv(s2, joined(a, k)),
{
    let q = a.queue;
    let q2 = seq![k] + q;
    let a2 = joined(a, k);
    let nodes = s.shared.nodes;
    if a.waker is Some {
        let w = a.waker->0;
        assert(s2.threads[w] == s.threads[w]);
        assert forall|i: int| 1 <= i < q2.len() implies #[trigger] q2[i] == q[i - 1] by {}
        lemma_linked_push(nodes, q, k, a.seen, a.at);
        lemma_linked_push(nodes, q, k, a.seen, q.len() - 1);
        assert forall|state: usize| #[trigger] seen_inv(s, a, state) implies seen_inv(
            s2,
            a2,
            state,
        ) by {
            assert forall|i: int| 0 <= i <= a2.seen implies (
            #[trigger] nodes[q2[i]]).prev is None by {
                if i > 0 {
                    assert(nodes[q[i - 1]].prev is None);
                }
            }
        }
        if q.len() > 0 {
            assert(q2.last() == q.last());
        }
        if s.threads[w] matches Thread::Releasing(op) && op.pc is Notify {
            let tail = s.threads[w]->Releasing_0.pc->Notify_tail;
            assert(tail != k);
            if q2.contains(tail) {
                let i = choose|i: int| 0 <= i < q2.len() && q2[i] == tail;
                assert(q[i - 1] == tail);
            }
        }
    }
}

/// Joining the list.
proof fn lemma_publish(s: System, a: Aux, s2: System, k: usize) -> (a2: Aux)
    requires
        inv(s, a),
        s.step(s2, k, true),
        s.threads[k] matches Thread::Acquiring(op) && op.pc is Publish,
    ensures
        inv(s2, a2),
        a2.queue == seq![k] + a.queue,
{
    reveal(inv);
    assert(thread_inv(s, a, k));
    let word = s.shared.word;
    let a2 = joined(a, k);
    super::word::lemma_split(word);
    super::word::lemma_parts(s2.shared.word, k, (word % 512) as int);
    assert(s2.threads.dom() =~= s.threads.dom());
    if a.queue.len() > 0 {
        assert(a.queue.contains(a.queue[0]));
        assert(thread_inv(s, a, a.queue[0]));
    }
    lemma_join_list(s.shared.nodes, a, k);
    lemma_join_waker(s, a, s2, k);
    assert forall|j: usize| #[trigger] s2.threads.contains_key(j) implies thread_inv(s2, a2, j) by {
        assert(s.threads.contains_key(j));
        assert(thread_inv(s, a, j));
        assert(a2.queue.contains(j) == (j == k || a.queue.contains(j)));
        if in_hand(s, a, j) {
            assert(in_hand(s2, a2, j));
        }
    }
    a2
}

/// A new front of the list leaves the links behind it.
proof fn lemma_linked_push(
    nodes: Map<usize, LockWaiter>,
    q: Seq<usize>,
    k: usize,
    from: int,
    to: int,
)
    ensures
        0 <= from && to < q.len() && linked(nodes, q, from, to) ==> linked(
            nodes,
            seq![k] + q,
            from + 1,
            to + 1,
        ),
{
    let q2 = seq![k] + q;
    if 0 <= from && to < q.len() && linked(nodes, q, from, to) {
        assert forall|i: int, j: int|
            #![trigger q2[i], q2[j]]
            from + 1 <= i && j == i + 1 && j <= to + 1 implies nodes[q2[j]].prev == Some(
            q2[i],
        ) by {
            assert(q2[i] == q[i - 1] && q2[j] == q[j - 1]);
        }
    }
}

/// Leaving the lock.
proof fn lemma_unlock(s: System, a: Aux, s2: System, k: usize, exchanged: bool) -> (a2: Aux)
    requires
        inv(s, a),
        s.step(s2, k, exchanged),
        s.threads[k] matches Thread::Releasing(op) && op.pc is Unlock,
    ensures
        inv(s2, a2),
        a2.queue == a.queue,
{
    reveal(inv);
    assert(thread_inv(s, a, k));
    assert(s2.threads.dom() =~= s.threads.dom());
    super::word::lemma_byte(s.shared.word);
    let a2 = Aux { holder: None, ..a };
    assert forall|j: usize| #[trigger] s2.threads.contains_key(j) implies thread_inv(s2, a2, j) by {
        assert(s.threads.contains_key(j));
        assert(thread_inv(s, a, j));
    }
    assert(waker_inv(s2, a2));
    assert(s2.threads[k].is_active());
    a2
}

/// Looking whether somebody is to be woken.
proof fn lemma_peek(s: System, a: Aux, s2: System, k: usize, exchanged: bool)
    requires
        inv(s, a),
        s.step(s2, k, exchanged),
        s.threads[k] matches Thread::Releasing(op) && (op.pc is Peek || op.pc is Reload || (
        op.pc is Claim && !exchanged)),
    ensures
        inv(s2, a),
{
    reveal(inv);
    assert(thread_inv(s, a, k));
    assert(s2.threads.dom() =~= s.threads.dom());
    assert forall|j: usize| #[trigger] s2.threads.contains_key(j) implies thread_inv(s2, a, j) by {
        assert(s.threads.contains_key(j));
        assert(thread_inv(s, a, j));
    }
    assert(waker_inv(s2, a));
    if a.queue.len() > 0 && a.holder is None && a.waker is None {
        let q0 = a.queue[0];
        assert(a.queue.contains(q0));
        assert(thread_inv(s, a, q0));
        assert(super::word::wake_needed(s.shared.word));
        assert(s2.threads[k].is_active());
    }
}

/// Setting the waking bit.
proof fn lemma_claim(s: System, a: Aux, s2: System, k: usize) -> (a2: Aux)
    requires
        inv(s, a),
        s.step(s2, k, true),
        s.threads[k] matches Thread::Releasing(op) && op.pc is Claim,
    ensures
        inv(s2, a2),
        a2.queue == a.queue,
{
    reveal(inv);
    assert(thread_inv(s, a, k));
    assert(s2.threads.dom() =~= s.threads.dom());
    let word = s.shared.word;
    super::release::lemma_claim(word);
    super::word::lemma_split(word);
    super::word::lemma_split(s2.shared.word);
    let a2 = Aux { waker: Some(k), seen: 0, ..a };
    assert forall|j: usize| #[trigger] s2.threads.contains_key(j) implies thread_inv(s2, a2, j) by {
        assert(s.threads.contains_key(j));
        assert(thread_inv(s, a, j));
    }
    assert(waker_inv(s2, a2));
    a2
}

/// Reading links.
proof fn lemma_read(s: System, a: Aux, s2: System, k: usize, exchanged: bool) -> (a2: Aux)
    requires
        inv(s, a),
        s.step(s2, k, exchanged),
        s.threads[k] matches Thread::Releasing(op) && (op.pc is FindTail || op.pc is Walk
            || op.pc is Probe || op.pc is Unlink || (op.pc is Abandon && !exchanged) || (
        op.pc is Clear && !exchanged)),
    ensures
        inv(s2, a2),
        a2.queue == a.queue,
{
    reveal(inv);
    assert(thread_inv(s, a, k));
    assert(a.waker == Some(k));
    assert(s2.threads.dom() =~= s.threads.dom());
    let op = s.threads[k]->Releasing_0;
    let q = a.queue;
    assert(q.len() > 0);
    assert(q.contains(q[0]));
    assert(thread_inv(s, a, q[0]));
    let a2 = match op.pc {
        ReleasePc::FindTail { .. } => Aux { at: a.seen, ..a },
        ReleasePc::Abandon { .. } | ReleasePc::Clear { .. } => Aux { seen: 0, ..a },
        _ => a,
    };
    assert forall|j: usize| #[trigger] s2.threads.contains_key(j) implies thread_inv(s2, a2, j) by {
        assert(s.threads.contains_key(j));
        assert(thread_inv(s, a, j));
    }
    assert(waker_inv(s2, a2)) by {
        match op.pc {
            ReleasePc::FindTail { state } => {
                assert(s.shared.nodes[q[a.seen]].tail is Some == (a.seen == a.marker));
            },
            ReleasePc::Walk { state, current } => {
                assert(s.shared.nodes[q[a.at]].next == Some(q[a.at + 1]));
            },
            ReleasePc::Probe { state, current } => {
                assert(s.shared.nodes[q[a.at]].tail is Some == (a.at == a.marker));
            },
            ReleasePc::Unlink { state, tail } => {
                if a.seen < q.len() - 1 {
                    assert(s.shared.nodes[q[q.len() - 1]].prev == Some(q[q.len() - 2]));
                } else {
                    assert(s.shared.nodes[q[a.seen]].prev is None);
                }
            },
            _ => {},
        }
    }
    a2
}

/// Laying a link to a newer waiter, or leaving the oldest waiter with the newest one.
proof fn lemma_write(s: System, a: Aux, s2: System, k: usize, exchanged: bool) -> (a2: Aux)
    requires
        inv(s, a),
        s.step(s2, k, exchanged),
        s.threads[k] matches Thread::Releasing(op) && (op.pc is Back || op.pc is Cache),
    ensures
        inv(s2, a2),
        a2.queue == a.queue,
{
    reveal(inv);
    assert(thread_inv(s, a, k));
    assert(a.waker == Some(k));
    assert(s2.threads.dom() =~= s.threads.dom());
    assert(s2.shared.nodes.dom() =~= s.shared.nodes.dom());
    let op = s.threads[k]->Releasing_0;
    let q = a.queue;
    let a2 = match op.pc {
        ReleasePc::Back { .. } => Aux { at: a.at + 1, ..a },
        _ => Aux { marker: a.seen, ..a },
    };
    let target = match op.pc {
        ReleasePc::Back { .. } => q[a.at + 1],
        _ => q[a.seen],
    };
    assert(q.contains(target));
    assert(thread_inv(s, a, target));
    assert forall|j: usize| #[trigger] s2.threads.contains_key(j) implies thread_inv(s2, a2, j) by {
        assert(s.threads.contains_key(j));
        assert(thread_inv(s, a, j));
    }
    assert(list_inv(s2.shared.nodes, a2));
    assert(waker_inv(s2, a2));
    a2
}

/// Giving up the waking bit.
proof fn lemma_abandon(s: System, a: Aux, s2: System, k: usize) -> (a2: Aux)
    requires
        inv(s, a),
        s.step(s2, k, true),
        s.threads[k] matches Thread::Releasing(op) && op.pc is Abandon,
    ensures
        inv(s2, a2),
        a2.queue == a.queue,
{
    reveal(inv);
    assert(thread_inv(s, a, k));
    assert(a.waker == Some(k));
    assert(s2.threads.dom() =~= s.threads.dom());
    let word = s.shared.word;
    super::word::lemma_split(word);
    super::word::lemma_parts(s2.shared.word, super::word::head(word), word % 512 - 256);
    let a2 = Aux { waker: None, ..a };
    assert forall|j: usize| #[trigger] s2.threads.contains_key(j) implies thread_inv(s2, a2, j) by {
        assert(s.threads.contains_key(j));
        assert(thread_inv(s, a, j));
    }
    a2
}

/// Taking the oldest waiter off the list.
proof fn lemma_unlink(s: System, a: Aux, s2: System, k: usize, exchanged: bool) -> (a2: Aux)
    requires
        inv(s, a),
        s.step(s2, k, exchanged),
        s.threads[k] matches Thread::Releasing(op) && (op.pc is Shorten || (op.pc is Clear
            && exchanged)),
    ensures
        inv(s2, a2),
        a.queue.len() > 0,
        a2.queue == a.queue.drop_last(),
        s2.threads[k] == Thread::Releasing(
            Release { pc: ReleasePc::Notify { tail: a.queue.last() } },
        ),
{
    reveal(inv);
    assert(thread_inv(s, a, k));
    assert(a.waker == Some(k));
    assert(s2.threads.dom() =~= s.threads.dom());
    let op = s.threads[k]->Releasing_0;
    let q = a.queue;
    let q2 = q.drop_last();
    let a2 = Aux { queue: q2, ..a };
    let tail = q.last();
    assert(q[q.len() - 1] == tail);
    assert(q.contains(tail));
    assert(thread_inv(s, a, tail));
    assert(q.contains(q[0]));
    assert(thread_inv(s, a, q[0]));
    assert forall|j: usize| q2.contains(j) == (q.contains(j) && j != tail) by {
        if q.contains(j) && j != tail {
            let i = choose|i: int| 0 <= i < q.len() && q[i] == j;
            assert(q2[i] == j);
        }
        if q2.contains(j) {
            let i = choose|i: int| 0 <= i < q2.len() && q2[i] == j;
            assert(q[i] == j);
        }
    }
    assert(s2.shared.nodes.dom() =~= s.shared.nodes.dom());
    if op.pc is Clear {
        let word = s.shared.word;
        assert(q2.len() == 0);
        super::word::lemma_split(word);
        super::word::lemma_parts(s2.shared.word, 0, word % 2 + 256);
    } else {
        assert(q[a.seen] != tail);
        assert(q.contains(q[a.seen]));
        assert(thread_inv(s, a, q[a.seen]));
        assert(front(q2) == front(q));
        assert(list_inv(s2.shared.nodes, a2));
    }
    assert forall|j: usize| #[trigger] s2.threads.contains_key(j) implies thread_inv(s2, a2, j) by {
        assert(s.threads.contains_key(j));
        assert(thread_inv(s, a, j));
    }
    assert(waker_inv(s2, a2));
    a2
}

/// Handing the waking bit to the thread that is woken.
proof fn lemma_notify(s: System, a: Aux, s2: System, k: usize, exchanged: bool) -> (a2: Aux)
    requires
        inv(s, a),
        s.step(s2, k, exchanged),
        s.threads[k] matches Thread::Releasing(op) && op.pc is Notify,
    ensures
        inv(s2, a2),
        a2.queue == a.queue,
{
    reveal(inv);
    assert(thread_inv(s, a, k));
    assert(a.waker == Some(k));
    assert(s2.threads.dom() =~= s.threads.dom());
    assert(s2.shared.nodes.dom() =~= s.shared.nodes.dom());
    let op = s.threads[k]->Releasing_0;
    let tail = op.pc->Notify_tail;
    let a2 = Aux { waker: Some(tail), ..a };
    assert(thread_inv(s, a, tail));
    assert forall|i: int| 0 <= i < a.queue.len() implies s2.shared.nodes[#[trigger] a.queue[i]]
        == s.shared.nodes[a.queue[i]] by {
        assert(a.queue.contains(a.queue[i]));
    }
    assert(list_inv(s2.shared.nodes, a2));
    assert forall|j: usize| #[trigger] s2.threads.contains_key(j) implies thread_inv(s2, a2, j) by {
        assert(s.threads.contains_key(j));
        assert(thread_inv(s, a, j));
    }
    a2
}

/// A system, and its waiting threads in the order in which they joined the list, newest first.
pub ghost struct Moment {
    pub system: System,
    pub waiting: Seq<usize>,
}

/// Whether the step of a thread from `before` to `after` joins the list.
pub open spec fn joins(before: Thread, after: Thread) -> bool {
    &&& before matches Thread::Acquiring(op) && op.pc is Publish
    &&& after.waits()
}

/// Whether the step of a thread from `before` to `after` takes a waiter off the list.
pub open spec fn takes_off(before: Thread, after: Thread) -> bool {
    &&& before matches Thread::Releasing(op) && !(op.pc is Notify)
    &&& after matches Thread::Releasing(op) && op.pc is Notify
}

impl Moment {
    /// Nobody has used the lock yet.
    pub open spec fn init(self) -> bool {
        self.system.init() && self.waiting == Seq::<usize>::empty()
    }

    /// Thread `k` makes a step or takes a turn.
    pub open spec fn next_by(self, next: Moment, k: usize, exchanged: bool) -> bool {
        let before = self.system.threads[k];
        let after = next.system.threads[k];
        &&& self.system.step(next.system, k, exchanged) || self.system.turn(next.system, k)
        &&& next.waiting == if joins(before, after) {
            seq![k] + self.waiting
        } else if takes_off(before, after) {
            self.waiting.remove_value(after->Releasing_0.pc->Notify_tail)
        } else {
            self.waiting
        }
    }

    /// Some thread makes a step or takes a turn.
    pub open spec fn next(self, next: Moment) -> bool {
        exists|k: usize, exchanged: bool| self.next_by(next, k, exchanged)
    }

    /// Whether the moment comes after `n` steps of the threads, in some order.
    pub open spec fn reachable(self, n: nat) -> bool
        decreases n,
    {
        if n == 0 {
            self.init()
        } else {
            exists|before: Moment|
                #![trigger before.next(self)]
                before.reachable((n - 1) as nat) && before.next(self)
        }
    }
}

proof fn lemma_step(s: System, a: Aux, s2: System, k: usize, exchanged: bool) -> (a2: Aux)
    requires
        inv(s, a),
        s.step(s2, k, exchanged),
    ensures
        inv(s2, a2),
        joins(s.threads[k], s2.threads[k]) ==> a2.queue == seq![k] + a.queue,
        takes_off(s.threads[k], s2.threads[k]) ==> {
            &&& a.queue.len() > 0
            &&& s2.threads[k]->Releasing_0.pc->Notify_tail == a.queue.last()
            &&& a2.queue == a.queue.drop_last()
        },
        !joins(s.threads[k], s2.threads[k]) && !takes_off(s.threads[k], s2.threads[k])
            ==> a2.queue == a.queue,
{
    match s.threads[k] {
        Thread::Acquiring(op) => match op.pc {
            AcquirePc::Fast | AcquirePc::Retry => lemma_swap(s, a, s2, k, exchanged),
            AcquirePc::Link(_) | AcquirePc::Rearm => {
                lemma_own(s, a, s2, k, exchanged);
                a
            },
            AcquirePc::Publish(_) => if exchanged {
                lemma_publish(s, a, s2, k)
            } else {
                lemma_look(s, a, s2, k, exchanged);
                a
            },
            AcquirePc::Unclaim => lemma_unclaim(s, a, s2, k, exchanged),
            _ => {
                lemma_look(s, a, s2, k, exchanged);
                a
            },
        },
        Thread::Releasing(op) => match op.pc {
            ReleasePc::Unlock => lemma_unlock(s, a, s2, k, exchanged),
            ReleasePc::Peek | ReleasePc::Reload => {
                lemma_peek(s, a, s2, k, exchanged);
                a
            },
            ReleasePc::Claim { .. } => if exchanged {
                lemma_claim(s, a, s2, k)
            } else {
                lemma_peek(s, a, s2, k, exchanged);
                a
            },
            ReleasePc::Back { .. } | ReleasePc::Cache { .. } => lemma_write(
                s,
                a,
                s2,
                k,
                exchanged,
            ),
            ReleasePc::Shorten { .. } => lemma_unlink(s, a, s2, k, exchanged),
            ReleasePc::Clear { .. } => if exchanged {
                lemma_unlink(s, a, s2, k, exchanged)
            } else {
                lemma_read(s, a, s2, k, exchanged)
            },
            ReleasePc::Abandon { .. } => if exchanged {
                lemma_abandon(s, a, s2, k)
            } else {
                lemma_read(s, a, s2, k, exchanged)
            },
            ReleasePc::Notify { .. } => lemma_notify(s, a, s2, k, exchanged),
            _ => lemma_read(s, a, s2, k, exchanged),
        },
        Thread::Idle => a,
    }
}

/// What one step or turn does to the list of waiting threads.
pub proof fn lemma_next(m: Moment, a: Aux, m2: Moment, k: usize, exchanged: bool) -> (a2: Aux)
    requires
        inv(m.system, a),
        a.queue == m.waiting,
        m.next_by(m2, k, exchanged),
    ensures
        inv(m2.system, a2),
        a2.queue == m2.waiting,
        takes_off(m.system.threads[k], m2.system.threads[k]) ==> {
            &&& m.waiting.len() > 0
            &&& m2.system.threads[k]->Releasing_0.pc->Notify_tail == m.waiting.last()
            &&& m2.waiting == m.waiting.drop_last()
        },
{
    if m.system.step(m2.system, k, exchanged) {
        let a2 = lemma_step(m.system, a, m2.system, k, exchanged);
        if takes_off(m.system.threads[k], m2.system.threads[k]) {
            let q = a.queue;
            assert(q.no_duplicates()) by {
                reveal(inv);
            }
            assert(q[q.len() - 1] == q.last());
            assert(q.contains(q.last()));
            let i = q.index_of_first(q.last());
            q.index_of_first_ensures(q.last());
            assert(i == Some(q.len() - 1));
            assert(q.remove(q.len() - 1) =~= q.drop_last());
        }
        a2
    } else {
        lemma_turn(m.system, a, m2.system, k);
        a
    }
}

/// What holds at every moment, with the list of waiting threads.
pub proof fn lemma_reachable(m: Moment, n: nat) -> (a: Aux)
    requires
        m.reachable(n),
    ensures
        inv(m.system, a),
        a.queue == m.waiting,
    decreases n,
{
    reveal(inv);
    if n == 0 {
        let a = lemma_init(m.system);
        assert(super::word::head(m.system.shared.word) == 0);
        if a.queue.len() > 0 {
            let k = a.queue[0];
            assert(a.queue.contains(k));
            assert(thread_inv(m.system, a, k));
        }
        assert(a.queue =~= m.waiting);
        a
    } else {
        let before = choose|before: Moment|
            #![trigger before.next(m)]
            before.reachable((n - 1) as nat) && before.next(m);
        let a = lemma_reachable(before, (n - 1) as nat);
        let (k, exchanged) = choose|k: usize, exchanged: bool| before.next_by(m, k, exchanged);
        lemma_next(before, a, m, k, exchanged)
    }
}

/// Whatever the threads do, at most one of them is in the section that the lock guards, and the
/// word says so.
pub proof fn law_mutual_exclusion(m: Moment, n: nat, j: usize, k: usize)
    requires
        m.reachable(n),
        m.system.threads.contains_key(j),
        m.system.threads.contains_key(k),
        m.system.threads[j].holds(),
    ensures
        m.system.threads[k].holds() ==> j == k,
        super::word::locked(m.system.shared.word),
{
    reveal(inv);
    let a = lemma_reachable(m, n);
    assert(thread_inv(m.system, a, j));
    assert(thread_inv(m.system, a, k));
}

/// Whatever the threads do, a thread can always make the access that it is about to make, and can
/// go on from the answer: no walk runs off the list, no subtraction underflows, and no link leads
/// to a waiter that is gone.
pub proof fn law_no_step_is_stuck(m: Moment, n: nat, k: usize, exchanged: bool)
    requires
        m.reachable(n),
        m.system.threads.contains_key(k),
        m.system.threads[k].access() is Some,
        exchanged ==> (m.system.threads[k].access()->0 matches Access::Exchange { current, .. }
            && current == m.system.shared.word),
    ensures
        m.system.shared.allows(k, m.system.threads[k].access()->0, exchanged),
        m.system.threads[k].accepts(
            m.system.shared.reply(k, m.system.threads[k].access()->0, exchanged),
        ),
{
    reveal(inv);
    let a = lemma_reachable(m, n);
    let s = m.system;
    assert(thread_inv(s, a, k));
    super::word::lemma_split(s.shared.word);
    if a.queue.len() > 0 {
        assert(a.queue.contains(a.queue[0]));
        assert(thread_inv(s, a, a.queue[0]));
    }
    match s.threads[k] {
        Thread::Releasing(op) => {
            if s.threads[k].is_waking() {
                assert(a.waker == Some(k));
                if op.pc is Walk {
                    assert(s.shared.nodes[a.queue[a.at]].next == Some(a.queue[a.at + 1]));
                }
                if op.pc is Shorten || op.pc is Unlink || op.pc is Cache {
                    assert(s.shared.nodes.contains_key(a.queue[a.queue.len() - 1]));
                    assert(s.shared.nodes.contains_key(a.queue[a.seen]));
                }
            }
        },
        _ => {},
    }
}

/// The waiter that an access touches, where it is not that of the thread that makes it.
pub open spec fn touched(access: Access) -> Option<usize> {
    match access {
        Access::GetNext(addr) => Some(addr),
        Access::GetPrev(addr) => Some(addr),
        Access::GetTail(addr) => Some(addr),
        Access::SetPrev(addr, _) => Some(addr),
        Access::SetTail(addr, _) => Some(addr),
        Access::Notify(addr) => Some(addr),
        _ => None,
    }
}

/// Whatever the threads do, a thread touches the waiter of another one only while that one sleeps
/// and has not been notified: a thread that has been notified can take its waiter away.
pub proof fn law_only_sleeping_waiters_are_touched(m: Moment, n: nat, k: usize)
    requires
        m.reachable(n),
        m.system.threads.contains_key(k),
        m.system.threads[k].access() is Some,
        touched(m.system.threads[k].access()->0) is Some,
    ensures
        ({
            let addr = touched(m.system.threads[k].access()->0)->0;
            &&& m.system.threads.contains_key(addr)
            &&& m.system.threads[addr].waits()
            &&& !m.system.shared.nodes[addr].notified
        }),
{
    reveal(inv);
    let a = lemma_reachable(m, n);
    let s = m.system;
    let q = a.queue;
    let addr = touched(s.threads[k].access()->0)->0;
    assert(thread_inv(s, a, k));
    let op = s.threads[k]->Releasing_0;
    assert(a.waker == Some(k));
    if !(op.pc is Notify) {
        let i = match op.pc {
            ReleasePc::Walk { .. } | ReleasePc::Probe { .. } => a.at,
            ReleasePc::Back { .. } => a.at + 1,
            ReleasePc::Unlink { .. } => q.len() - 1,
            _ => a.seen,
        };
        assert(q[i] == addr);
        assert(q.contains(addr));
        assert(s.shared.nodes.contains_key(q[i]));
        assert(s.threads.contains_key(addr));
        assert(thread_inv(s, a, addr));
    }
}

/// Whatever the threads do, while one of them sleeps that nobody has notified, another one is awake
/// that will wake it: it holds the lock, or is on its way to take it, or is looking for somebody to
/// wake, or has been woken itself.
pub proof fn law_no_lost_wakeup(m: Moment, n: nat, k: usize)
    requires
        m.reachable(n),
        m.system.threads.contains_key(k),
        m.system.threads[k].waits(),
        !m.system.shared.nodes[k].notified,
    ensures
        exists|j: usize|
            #![trigger m.system.threads[j]]
            {
                &&& m.system.threads.contains_key(j)
                &&& {
                    ||| m.system.threads[j].holds()
                    ||| m.system.threads[j].is_active()
                    ||| m.system.threads[j].is_waking()
                    ||| m.system.shared.nodes[j].notified
                }
            },
{
    reveal(inv);
    let a = lemma_reachable(m, n);
    let s = m.system;
    assert(thread_inv(s, a, k));
    if a.holder is Some {
        let h = a.holder->0;
        assert(thread_inv(s, a, h));
        assert(s.threads[h].holds());
    } else if a.waker is Some {
        let w = a.waker->0;
        assert(thread_inv(s, a, w));
        assert(s.threads[w].is_waking() || s.shared.nodes[w].notified || s.threads[w].is_active());
    } else {
        assert(a.queue.contains(k));
    }
}

/// Threads are woken in the order in which they joined the list.
pub proof fn law_oldest_waiter_first(m: Moment, n: nat, m2: Moment, k: usize, exchanged: bool)
    requires
        m.reachable(n),
        m.next_by(m2, k, exchanged),
        takes_off(m.system.threads[k], m2.system.threads[k]),
    ensures
        m.waiting.len() > 0,
        m2.system.threads[k]->Releasing_0.pc->Notify_tail == m.waiting.last(),
        m2.waiting == m.waiting.drop_last(),
{
    let a = lemma_reachable(m, n);
    let a2 = lemma_next(m, a, m2, k, exchanged);
}

/// The threads that sleep unnotified are those in the list, and the one that the waking thread has
/// just taken off it.
pub proof fn law_waiting_threads_sleep(m: Moment, n: nat, k: usize)
    requires
        m.reachable(n),
        m.system.threads.contains_key(k),
    ensures
        m.waiting.contains(k) ==> m.system.threads[k].waits()
            && !m.system.shared.nodes[k].notified,
        m.system.threads[k].waits() && !m.system.shared.nodes[k].notified
            && !m.waiting.contains(k) ==> exists|w: usize|
            m.system.threads.contains_key(w) && #[trigger] m.system.threads[w]
                == Thread::Releasing(Release { pc: ReleasePc::Notify { tail: k } }),
{
    reveal(inv);
    let a = lemma_reachable(m, n);
    assert(thread_inv(m.system, a, k));
    if m.system.threads[k].waits() && !m.system.shared.nodes[k].notified && !m.waiting.contains(
        k,
    ) {
        assert(in_hand(m.system, a, k));
    }
}

} // verus!
