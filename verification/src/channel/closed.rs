//! Going through the waiters of a channel that has been closed.
use std::task::Waker;
use vstd::prelude::*;
use super::queue::WaiterQueue;
use super::waiter::{Entry, Waiter, WaiterState, Waiters};

verus! {

/// The waiter has not been told yet what has become of it.
pub open spec fn unanswered<T>(waiter: Waiter<T>) -> bool {
    &&& waiter.state is Sending || waiter.state is Receiving
    &&& waiter.atomic_waker.prepared()
}

/// The waiter after it has been told that the channel is closed.
pub open spec fn told<T>(waiter: Waiter<T>) -> Waiter<T> {
    Waiter {
        state: waiter.state.closed(),
        atomic_waker: waiter.atomic_waker.woken(),
        ..waiter
    }
}

/// The waiters after those under `keys` have been told that the channel is closed.
pub open spec fn closed_nodes<T>(
    nodes: Map<usize, Waiter<T>>,
    keys: Seq<usize>,
) -> Map<usize, Waiter<T>> {
    Map::new(
        |k: usize| nodes.contains_key(k),
        |k: usize|
            if keys.contains(k) {
                told(nodes[k])
            } else {
                nodes[k]
            },
    )
}

/// The waiters but for their links, after those under `keys` have been told that the channel is
/// closed.
pub open spec fn closed_entries<T>(
    entries: Map<usize, Entry<T>>,
    keys: Seq<usize>,
) -> Map<usize, Entry<T>> {
    Map::new(
        |k: usize| entries.contains_key(k),
        |k: usize|
            if keys.contains(k) {
                entries[k].closed()
            } else {
                entries[k]
            },
    )
}

/// The wakers that the waiters under `keys` hand out, in this order.
pub open spec fn wakers_of<T>(entries: Map<usize, Entry<T>>, keys: Seq<usize>) -> Seq<Waker>
    decreases keys.len(),
{
    if keys.len() == 0 {
        Seq::empty()
    } else {
        let rest = wakers_of(entries, keys.drop_first());
        match entries[keys[0]].waker.wakes() {
            Some(waker) => seq![waker] + rest,
            None => rest,
        }
    }
}

/// Goes through the waiters of a closed channel, tells each of them what has become of it, and
/// hands out their wakers.
pub struct ClosedIter {
    pub head: Option<usize>,
    pub rest: Ghost<Seq<usize>>,
}

impl WaiterQueue {
    /// Goes through the waiters of the queue.
    pub fn into_iter(self) -> (iter: ClosedIter)
        ensures
            iter.rest@ == self@,
            iter.head == self.head,
    {
        ClosedIter { head: self.head, rest: self.keys }
    }
}

impl ClosedIter {
    /// The waiters that are left are linked in their order, and none of them has been told yet.
    pub open spec fn wf<T>(&self, nodes: Map<usize, Waiter<T>>) -> bool {
        let keys = self.rest@;
        &&& keys.no_duplicates()
        &&& self.head == if keys.len() == 0 {
            None
        } else {
            Some(keys[0])
        }
        &&& forall|i: int| 0 <= i < keys.len() ==> nodes.contains_key(#[trigger] keys[i])
        &&& forall|i: int|
            0 <= i < keys.len() ==> (#[trigger] nodes[keys[i]]).next == super::queue::next_of(
                keys,
                i,
            )
        &&& forall|i: int| 0 <= i < keys.len() ==> unanswered(#[trigger] nodes[keys[i]])
    }

    /// Tells waiters that the channel is closed, up to the first one that hands out a waker.
    /// A sender gets its item back.
    pub fn next<T>(&mut self, nodes: &mut Waiters<T>) -> (waker: Option<Waker>)
        requires
            old(self).wf(old(nodes)@),
        ensures
            final(self).wf(final(nodes)@),
            ({
                let keys = old(self).rest@;
                let n = keys.len() - final(self).rest@.len();
                &&& 0 <= n <= keys.len()
                &&& final(self).rest@ == keys.skip(n)
                &&& final(nodes)@ == closed_nodes(old(nodes)@, keys.take(n))
                &&& wakers_of(super::model::entries(old(nodes)@), keys) == (match waker {
                    Some(waker) => seq![waker],
                    None => Seq::empty(),
                }) + wakers_of(
                    super::model::entries(old(nodes)@),
                    final(self).rest@,
                )
                &&& match waker {
                    Some(waker) => {
                        &&& n > 0
                        &&& old(nodes)@[keys[n - 1]].atomic_waker.wakes() == Some(waker)
                        &&& forall|i: int|
                            0 <= i < n - 1 ==> (#[trigger] old(
                                nodes,
                            )@[keys[i]]).atomic_waker.wakes() is None
                    },
                    None => {
                        &&& n == keys.len()
                        &&& forall|i: int|
                            0 <= i < n ==> (#[trigger] old(
                                nodes,
                            )@[keys[i]]).atomic_waker.wakes() is None
                    },
                }
            }),
    {
        let ghost before = nodes@;
        let ghost keys = self.rest@;
        let ghost mut n: int = 0;
        proof {
            assert(keys.skip(0) =~= keys);
            assert(nodes@ =~= closed_nodes(before, keys.take(0)));
        }
        while self.head.is_some()
            invariant
                0 <= n <= keys.len(),
                keys == old(self).rest@,
                before == old(nodes)@,
                old(self).wf(before),
                self.rest@ == keys.skip(n),
                self.wf(nodes@),
                nodes@ == closed_nodes(before, keys.take(n)),
                wakers_of(super::model::entries(before), keys) == wakers_of(
                    super::model::entries(before),
                    keys.skip(n),
                ),
                forall|i: int|
                    0 <= i < n ==> (#[trigger] before[keys[i]]).atomic_waker.wakes() is None,
            decreases keys.len() - n,
        {
            proof {
                lemma_told_next(before, keys, n);
                assert(self.rest@[0] == keys[n]);
                assert(keys.skip(n).drop_first() =~= keys.skip(n + 1));
            }
            let waker: Option<Waker> = self.tell(nodes);
            proof {
                n = n + 1;
            }
            if waker.is_some() {
                return waker;
            }
        }
        proof {
            assert(self.rest@.len() == 0);
        }
        None
    }

    /// Tells the first waiter that is left.
    fn tell<T>(&mut self, nodes: &mut Waiters<T>) -> (waker: Option<Waker>)
        requires
            old(self).wf(old(nodes)@),
            old(self).head is Some,
        ensures
            final(self).wf(final(nodes)@),
            final(self).rest@ == old(self).rest@.drop_first(),
            final(nodes)@ == old(nodes)@.insert(
                old(self).rest@[0],
                told(old(nodes)@[old(self).rest@[0]]),
            ),
            waker == old(nodes)@[old(self).rest@[0]].atomic_waker.wakes(),
    {
        let ghost before = nodes@;
        let ghost keys = self.rest@;
        let key: usize = self.head.unwrap();
        proof {
            assert(before[keys[0]].next == super::queue::next_of(keys, 0));
            assert(unanswered(before[keys[0]]));
        }
        let waiter: &mut Waiter<T> = nodes.get_mut(key);
        self.head = waiter.next;
        let mut state: WaiterState<T> = WaiterState::Closed(None);
        std::mem::swap(&mut waiter.state, &mut state);
        match state {
            WaiterState::Sending(item) => {
                waiter.state = WaiterState::Closed(Some(item));
            },
            _ => {},
        }
        let waker: Option<Waker> = waiter.atomic_waker.wake();
        self.rest = Ghost(keys.drop_first());
        proof {
            let rest = self.rest@;
            assert forall|i: int| 0 <= i < rest.len() implies #[trigger] rest[i] == keys[i + 1]
                && keys[i + 1] != key by {}
            assert forall|i: int| 0 <= i < rest.len() implies (#[trigger] nodes@[rest[i]]).next
                == super::queue::next_of(rest, i) && unanswered(nodes@[rest[i]]) by {
                assert(before[keys[i + 1]].next == super::queue::next_of(keys, i + 1));
            }
        }
        waker
    }
}

/// Telling one more waiter.
proof fn lemma_told_next<T>(nodes: Map<usize, Waiter<T>>, keys: Seq<usize>, n: int)
    requires
        0 <= n < keys.len(),
        keys.no_duplicates(),
        forall|i: int| 0 <= i < keys.len() ==> nodes.contains_key(#[trigger] keys[i]),
    ensures
        closed_nodes(nodes, keys.take(n + 1)) == closed_nodes(nodes, keys.take(n)).insert(
            keys[n],
            told(nodes[keys[n]]),
        ),
        closed_nodes(nodes, keys.take(n))[keys[n]] == nodes[keys[n]],
{
    let t = keys.take(n);
    let t2 = keys.take(n + 1);
    assert(t2[n] == keys[n]);
    assert forall|k: usize| t2.contains(k) == (t.contains(k) || k == keys[n]) by {
        if t.contains(k) {
            let i = choose|i: int| 0 <= i < t.len() && t[i] == k;
            assert(t2[i] == k);
        }
        if t2.contains(k) {
            let i = choose|i: int| 0 <= i < t2.len() && t2[i] == k;
            if i < n {
                assert(t[i] == k);
            }
        }
    }
    assert(!t.contains(keys[n])) by {
        if t.contains(keys[n]) {
            let i = choose|i: int| 0 <= i < t.len() && t[i] == keys[n];
            assert(keys[i] == keys[n]);
        }
    }
    assert(closed_nodes(nodes, t2) =~= closed_nodes(nodes, t).insert(keys[n], told(nodes[keys[n]])));
}

/// Telling further waiters.
pub proof fn lemma_told_more<T>(nodes: Map<usize, Waiter<T>>, keys: Seq<usize>, n: int, m: int)
    requires
        0 <= n,
        0 <= m,
        n + m <= keys.len(),
        keys.no_duplicates(),
    ensures
        closed_nodes(closed_nodes(nodes, keys.take(n)), keys.skip(n).take(m)) == closed_nodes(
            nodes,
            keys.take(n + m),
        ),
{
    let a = keys.take(n);
    let b = keys.skip(n).take(m);
    let c = keys.take(n + m);
    assert forall|k: usize| c.contains(k) == (a.contains(k) || b.contains(k)) by {
        if a.contains(k) {
            let i = choose|i: int| 0 <= i < a.len() && a[i] == k;
            assert(c[i] == k);
        }
        if b.contains(k) {
            let i = choose|i: int| 0 <= i < b.len() && b[i] == k;
            assert(c[n + i] == k);
        }
        if c.contains(k) {
            let i = choose|i: int| 0 <= i < c.len() && c[i] == k;
            if i < n {
                assert(a[i] == k);
            } else {
                assert(b[i - n] == k);
            }
        }
    }
    assert forall|k: usize| !(a.contains(k) && b.contains(k)) by {
        if a.contains(k) && b.contains(k) {
            let i = choose|i: int| 0 <= i < a.len() && a[i] == k;
            let j = choose|j: int| 0 <= j < b.len() && b[j] == k;
            assert(keys[i] == keys[n + j]);
        }
    }
    assert(closed_nodes(closed_nodes(nodes, a), b) =~= closed_nodes(nodes, c));
}

/// Waiters that have not been told hand out what they did before others were.
pub proof fn lemma_wakers_untold<T>(nodes: Map<usize, Waiter<T>>, keys: Seq<usize>, n: int, m: int)
    requires
        0 <= n <= m <= keys.len(),
        keys.no_duplicates(),
        forall|i: int| 0 <= i < keys.len() ==> nodes.contains_key(#[trigger] keys[i]),
    ensures
        wakers_of(super::model::entries(closed_nodes(nodes, keys.take(n))), keys.skip(m))
            == wakers_of(super::model::entries(nodes), keys.skip(m)),
    decreases keys.len() - m,
{
    if m < keys.len() {
        lemma_wakers_untold(nodes, keys, n, m + 1);
        assert(keys.skip(m).drop_first() =~= keys.skip(m + 1));
        let t = keys.take(n);
        assert(!t.contains(keys[m])) by {
            if t.contains(keys[m]) {
                let i = choose|i: int| 0 <= i < t.len() && t[i] == keys[m];
                assert(keys[i] == keys[m]);
            }
        }
        assert(super::model::entries(nodes).contains_key(keys[m]));
    }
}

} // verus!
