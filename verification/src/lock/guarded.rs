//! What the threads of a lock see of the value that it guards.
use vstd::prelude::*;
use super::system::Moment;

verus! {

/// A lock in use, and the value that it guards. A thread touches the value only while it is in the
/// section that the lock guards.
pub ghost struct Guarded<V> {
    pub moment: Moment,
    pub value: V,
    /// The value as the last thread left it that was in the section, or as it was at first.
    pub left: V,
}

impl<V> Guarded<V> {
    /// Nobody has used the lock yet.
    pub open spec fn init(self) -> bool {
        self.moment.init() && self.left == self.value
    }

    /// Whether thread `k` is in the section.
    pub open spec fn holds(self, k: usize) -> bool {
        self.moment.system.threads.contains_key(k) && self.moment.system.threads[k].holds()
    }

    /// Thread `k` makes a step or takes a turn, which leaves the value alone.
    pub open spec fn steps(self, next: Guarded<V>, k: usize, exchanged: bool) -> bool {
        &&& self.moment.next_by(next.moment, k, exchanged)
        &&& next.value == self.value
        &&& next.left == if self.holds(k) && !next.holds(k) {
            self.value
        } else {
            self.left
        }
    }

    /// Thread `k`, which is in the section, writes the value.
    pub open spec fn writes(self, next: Guarded<V>, k: usize) -> bool {
        &&& self.holds(k)
        &&& next == Guarded { value: next.value, ..self }
    }

    /// Thread `k` does something.
    pub open spec fn next_by(self, next: Guarded<V>, k: usize, exchanged: bool) -> bool {
        self.steps(next, k, exchanged) || self.writes(next, k)
    }

    /// Some thread does something.
    pub open spec fn next(self, next: Guarded<V>) -> bool {
        exists|k: usize, exchanged: bool| self.next_by(next, k, exchanged)
    }

    /// Whether this comes after `n` steps and writes of the threads, in some order.
    pub open spec fn reachable(self, n: nat) -> bool
        decreases n,
    {
        if n == 0 {
            self.init()
        } else {
            exists|before: Guarded<V>|
                #![trigger before.next(self)]
                before.reachable((n - 1) as nat) && before.next(self)
        }
    }

    /// Whether no thread is in the section.
    pub open spec fn is_free(self) -> bool {
        forall|k: usize| !(#[trigger] self.holds(k))
    }
}

/// The lock is in use as any lock is, and while nobody is in the section the value is as it was
/// left.
proof fn lemma_reachable<V>(g: Guarded<V>, n: nat) -> (m: nat)
    requires
        g.reachable(n),
    ensures
        g.moment.reachable(m),
        g.is_free() ==> g.value == g.left,
    decreases n,
{
    if n == 0 {
        0
    } else {
        let before = choose|before: Guarded<V>|
            #![trigger before.next(g)]
            before.reachable((n - 1) as nat) && before.next(g);
        let (k, exchanged) = choose|k: usize, exchanged: bool| before.next_by(g, k, exchanged);
        let m = lemma_reachable(before, (n - 1) as nat);
        if before.steps(g, k, exchanged) {
            assert(before.moment.next(g.moment));
            if g.is_free() && !before.is_free() {
                let h = choose|h: usize| #[trigger] before.holds(h);
                assert(!g.holds(h));
                assert(h == k);
            }
            m + 1
        } else {
            assert(g.holds(k));
            m
        }
    }
}

/// Each thread that takes the lock sees the value as the last one left it: at the step that takes
/// the lock nobody else is in the section, and the value is the one that was left.
pub proof fn law_holder_sees_what_was_left<V>(
    g: Guarded<V>,
    n: nat,
    next: Guarded<V>,
    k: usize,
    exchanged: bool,
)
    requires
        g.reachable(n),
        g.steps(next, k, exchanged),
        !g.holds(k),
        next.holds(k),
    ensures
        g.is_free(),
        next.value == g.left,
{
    let m = lemma_reachable(g, n);
    assert(g.moment.next(next.moment));
    assert(next.moment.reachable(m + 1));
    assert forall|h: usize| !(#[trigger] g.holds(h)) by {
        if g.holds(h) {
            assert(next.holds(h));
            super::system::law_mutual_exclusion(next.moment, m + 1, h, k);
        }
    }
}

} // verus!
