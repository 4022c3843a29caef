//! What holds of a spinning lock whatever its threads do, one access at a time and in any order.
use vstd::prelude::*;
use super::mutex::{SpinAccess, SpinAcquire, SpinPc, SpinReply};

verus! {

/// What a thread does with the lock.
pub ghost enum SpinThread {
    /// Nothing.
    Idle,
    /// Takes it, or holds it once it has.
    Acquiring(SpinAcquire),
}

impl SpinThread {
    /// Whether the thread is in the section that the lock guards.
    pub open spec fn holds(self) -> bool {
        self matches SpinThread::Acquiring(op) && op.pc is Acquired
    }
}

/// A lock and the threads that use it.
pub ghost struct SpinSystem {
    pub is_locked: bool,
    pub threads: Map<int, SpinThread>,
}

impl SpinSystem {
    /// A lock that nobody has used yet.
    pub open spec fn init(self) -> bool {
        &&& !self.is_locked
        &&& forall|k: int| #[trigger]
            self.threads.contains_key(k) ==> self.threads[k] is Idle
    }

    /// The answer to an access. `exchanged` says whether an `Exchange` succeeded.
    pub open spec fn reply(self, access: SpinAccess, exchanged: bool) -> SpinReply {
        match access {
            SpinAccess::Load => SpinReply::Flag(self.is_locked),
            SpinAccess::Exchange => if exchanged {
                SpinReply::Exchanged
            } else {
                SpinReply::Observed(self.is_locked)
            },
            _ => SpinReply::Done,
        }
    }

    /// Thread `k` starts to take the lock.
    pub open spec fn begins(self, next: SpinSystem, k: int, yields: bool) -> bool {
        &&& self.threads.contains_key(k)
        &&& self.threads[k] is Idle
        &&& next == SpinSystem {
            threads: self.threads.insert(
                k,
                SpinThread::Acquiring(SpinAcquire { yields, spin: 0, pc: SpinPc::Look }),
            ),
            ..self
        }
    }

    /// Thread `k` makes the access that it is about to make. It sets the flag only where it is
    /// clear.
    pub open spec fn steps(self, next: SpinSystem, k: int, exchanged: bool) -> bool {
        let op = self.threads[k]->Acquiring_0;
        &&& self.threads.contains_key(k)
        &&& self.threads[k] is Acquiring
        &&& op.spec_access() is Some
        &&& exchanged ==> op.spec_access()->0 is Exchange && !self.is_locked
        &&& next == SpinSystem {
            is_locked: self.is_locked || exchanged,
            threads: self.threads.insert(
                k,
                SpinThread::Acquiring(op.after(self.reply(op.spec_access()->0, exchanged))),
            ),
        }
    }

    /// Thread `k`, which holds the lock, releases it.
    pub open spec fn releases(self, next: SpinSystem, k: int) -> bool {
        &&& self.threads.contains_key(k)
        &&& self.threads[k].holds()
        &&& next == SpinSystem {
            is_locked: false,
            threads: self.threads.insert(k, SpinThread::Idle),
        }
    }

    /// Thread `k` does something.
    pub open spec fn next_by(self, next: SpinSystem, k: int, choice: bool) -> bool {
        ||| self.begins(next, k, choice)
        ||| self.steps(next, k, choice)
        ||| self.releases(next, k)
    }

    /// Some thread does something.
    pub open spec fn next(self, next: SpinSystem) -> bool {
        exists|k: int, choice: bool| self.next_by(next, k, choice)
    }

    /// Whether the moment comes after `n` steps of the threads, in some order.
    pub open spec fn reachable(self, n: nat) -> bool
        decreases n,
    {
        if n == 0 {
            self.init()
        } else {
            exists|before: SpinSystem|
                #![trigger before.next(self)]
                before.reachable((n - 1) as nat) && before.next(self)
        }
    }

    /// At most one thread holds the lock, and one does where the flag is set.
    pub open spec fn inv(self) -> bool {
        &&& forall|j: int, k: int|
            #![trigger self.threads[j], self.threads[k]]
            self.threads.contains_key(j) && self.threads.contains_key(k) && self.threads[j].holds()
                && self.threads[k].holds() ==> j == k
        &&& self.is_locked <==> exists|k: int|
            #![trigger self.threads[k]]
            self.threads.contains_key(k) && self.threads[k].holds()
    }
}

proof fn lemma_next(s: SpinSystem, s2: SpinSystem, k: int, choice: bool)
    requires
        s.inv(),
        s.next_by(s2, k, choice),
    ensures
        s2.inv(),
{
    assert forall|j: int| j != k && #[trigger] s.threads.contains_key(j) implies s2.threads[j]
        == s.threads[j] && s2.threads.contains_key(j) by {}
    if s2.is_locked {
        if s.is_locked {
            let h = choose|h: int|
                #![trigger s.threads[h]]
                s.threads.contains_key(h) && s.threads[h].holds();
            assert(s2.threads[h].holds());
        } else {
            assert(s2.threads[k].holds());
        }
    }
    if exists|h: int|
        #![trigger s2.threads[h]]
        s2.threads.contains_key(h) && s2.threads[h].holds() {
        let h = choose|h: int|
            #![trigger s2.threads[h]]
            s2.threads.contains_key(h) && s2.threads[h].holds();
        if h != k {
            assert(s.threads[h].holds());
        }
        assert(s.threads.contains_key(k));
        assert(s2.is_locked) by {
            if h != k && s.releases(s2, k) {
                assert(s.threads[k].holds());
            }
        }
    }
}

proof fn lemma_reachable(s: SpinSystem, n: nat)
    requires
        s.reachable(n),
    ensures
        s.inv(),
    decreases n,
{
    if n > 0 {
        let before = choose|before: SpinSystem|
            #![trigger before.next(s)]
            before.reachable((n - 1) as nat) && before.next(s);
        lemma_reachable(before, (n - 1) as nat);
        let (k, choice) = choose|k: int, choice: bool| before.next_by(s, k, choice);
        lemma_next(before, s, k, choice);
    }
}

/// Whatever the threads do, at most one of them is in the section that the lock guards, and the
/// flag is set exactly while one is.
pub proof fn law_mutual_exclusion(s: SpinSystem, n: nat, j: int, k: int)
    requires
        s.reachable(n),
        s.threads.contains_key(j),
        s.threads.contains_key(k),
    ensures
        s.threads[j].holds() && s.threads[k].holds() ==> j == k,
        s.threads[j].holds() ==> s.is_locked,
        s.is_locked ==> exists|h: int|
            #![trigger s.threads[h]]
            s.threads.contains_key(h) && s.threads[h].holds(),
{
    lemma_reachable(s, n);
}

/// A lock in use, and the value that it guards. A thread touches the value only while it is in the
/// section that the lock guards.
pub ghost struct SpinGuarded<V> {
    pub system: SpinSystem,
    pub value: V,
    /// The value as the last thread left it that was in the section, or as it was at first.
    pub left: V,
}

impl<V> SpinGuarded<V> {
    /// Nobody has used the lock yet.
    pub open spec fn init(self) -> bool {
        self.system.init() && self.left == self.value
    }

    /// Whether thread `k` is in the section.
    pub open spec fn holds(self, k: int) -> bool {
        self.system.threads.contains_key(k) && self.system.threads[k].holds()
    }

    /// Thread `k` does something with the lock, which leaves the value alone.
    pub open spec fn steps(self, next: SpinGuarded<V>, k: int, choice: bool) -> bool {
        &&& self.system.next_by(next.system, k, choice)
        &&& next.value == self.value
        &&& next.left == if self.holds(k) && !next.holds(k) {
            self.value
        } else {
            self.left
        }
    }

    /// Thread `k`, which is in the section, writes the value.
    pub open spec fn writes(self, next: SpinGuarded<V>, k: int) -> bool {
        &&& self.holds(k)
        &&& next == SpinGuarded { value: next.value, ..self }
    }

    /// Thread `k` does something.
    pub open spec fn next_by(self, next: SpinGuarded<V>, k: int, choice: bool) -> bool {
        self.steps(next, k, choice) || self.writes(next, k)
    }

    /// Some thread does something.
    pub open spec fn next(self, next: SpinGuarded<V>) -> bool {
        exists|k: int, choice: bool| self.next_by(next, k, choice)
    }

    /// Whether this comes after `n` steps and writes of the threads, in some order.
    pub open spec fn reachable(self, n: nat) -> bool
        decreases n,
    {
        if n == 0 {
            self.init()
        } else {
            exists|before: SpinGuarded<V>|
                #![trigger before.next(self)]
                before.reachable((n - 1) as nat) && before.next(self)
        }
    }

    /// Whether no thread is in the section.
    pub open spec fn is_free(self) -> bool {
        forall|k: int| !(#[trigger] self.holds(k))
    }
}

/// The lock is in use as any lock is, and while nobody is in the section the value is as it was
/// left.
proof fn lemma_guarded<V>(g: SpinGuarded<V>, n: nat)
    requires
        g.reachable(n),
    ensures
        g.system.inv(),
        g.is_free() ==> g.value == g.left,
    decreases n,
{
    if n > 0 {
        let before = choose|before: SpinGuarded<V>|
            #![trigger before.next(g)]
            before.reachable((n - 1) as nat) && before.next(g);
        let (k, choice) = choose|k: int, choice: bool| before.next_by(g, k, choice);
        lemma_guarded(before, (n - 1) as nat);
        if before.steps(g, k, choice) {
            lemma_next(before.system, g.system, k, choice);
            if g.is_free() && !before.is_free() {
                let h = choose|h: int| #[trigger] before.holds(h);
                assert(!g.holds(h));
                assert(h == k);
            }
        } else {
            assert(g.holds(k));
        }
    }
}

/// Each thread that takes the lock sees the value as the last one left it: at the step that takes
/// the lock nobody else is in the section, and the value is the one that was left.
pub proof fn law_holder_sees_what_was_left<V>(
    g: SpinGuarded<V>,
    n: nat,
    next: SpinGuarded<V>,
    k: int,
    choice: bool,
)
    requires
        g.reachable(n),
        g.steps(next, k, choice),
        !g.holds(k),
        next.holds(k),
    ensures
        g.is_free(),
        next.value == g.left,
{
    lemma_guarded(g, n);
    lemma_next(g.system, next.system, k, choice);
    assert forall|h: int| !(#[trigger] g.holds(h)) by {
        if g.holds(h) {
            assert(next.system.threads[h].holds());
            assert(next.system.threads[k].holds());
        }
    }
}

} // verus!
