//! Queues of waiting tasks, linked through the waiters.
use vstd::prelude::*;
use super::waiter::{Waiter, Waiters};

verus! {

/// The waiters under `keys` are linked to each other in this order, and the first one knows the
/// last one.
pub open spec fn chained<T>(nodes: Map<usize, Waiter<T>>, keys: Seq<usize>) -> bool {
    &&& keys.no_duplicates()
    &&& forall|i: int| 0 <= i < keys.len() ==> nodes.contains_key(#[trigger] keys[i])
    &&& forall|i: int|
        0 <= i < keys.len() ==> (#[trigger] nodes[keys[i]]).prev == prev_of(keys, i)
    &&& forall|i: int|
        0 <= i < keys.len() ==> (#[trigger] nodes[keys[i]]).next == next_of(keys, i)
    &&& keys.len() > 0 ==> nodes[keys[0]].tail == Some(keys.last())
}

/// The key before position `i`.
pub open spec fn prev_of(keys: Seq<usize>, i: int) -> Option<usize> {
    if i == 0 {
        None
    } else {
        Some(keys[i - 1])
    }
}

/// The key after position `i`.
pub open spec fn next_of(keys: Seq<usize>, i: int) -> Option<usize> {
    if i + 1 == keys.len() {
        None
    } else {
        Some(keys[i + 1])
    }
}

/// From `before` to `after` only links have changed, and only those of the waiters under `keys`.
pub open spec fn relinked<T>(
    before: Map<usize, Waiter<T>>,
    after: Map<usize, Waiter<T>>,
    keys: Seq<usize>,
) -> bool {
    &&& after.dom() == before.dom()
    &&& forall|k: usize| #[trigger]
        after.contains_key(k) ==> after[k].entry() == before[k].entry()
    &&& forall|k: usize| #[trigger]
        after.contains_key(k) && !keys.contains(k) ==> after[k] == before[k]
}

/// A queue of waiting tasks, first come first.
pub struct WaiterQueue {
    pub head: Option<usize>,
    pub keys: Ghost<Seq<usize>>,
}

impl View for WaiterQueue {
    type V = Seq<usize>;

    open spec fn view(&self) -> Seq<usize> {
        self.keys@
    }
}

impl WaiterQueue {
    /// The queue is linked through `nodes`.
    pub open spec fn wf<T>(&self, nodes: Map<usize, Waiter<T>>) -> bool {
        &&& chained(nodes, self@)
        &&& self.head == if self@.len() == 0 {
            None
        } else {
            Some(self@[0])
        }
    }

    /// A queue stays linked where its waiters keep their links.
    pub proof fn lemma_frame<T>(
        &self,
        before: Map<usize, Waiter<T>>,
        after: Map<usize, Waiter<T>>,
    )
        requires
            self.wf(before),
            forall|k: usize| #[trigger]
                self@.contains(k) ==> after.contains_key(k) && after[k].prev == before[k].prev
                    && after[k].next == before[k].next && after[k].tail == before[k].tail,
        ensures
            self.wf(after),
    {
        assert forall|i: int| 0 <= i < self@.len() implies self@.contains(#[trigger] self@[i]) by {}
    }

    /// A queue without anybody in it.
    pub fn new() -> (queue: Self)
        ensures
            queue@ == Seq::<usize>::empty(),
            queue.head is None,
    {
        Self { head: None, keys: Ghost(Seq::empty()) }
    }

    /// Adds a waiter at the end.
    pub fn push<T>(&mut self, nodes: &mut Waiters<T>, key: usize)
        requires
            old(self).wf(old(nodes)@),
            old(nodes)@.contains_key(key),
            !old(self)@.contains(key),
        ensures
            final(self).wf(final(nodes)@),
            final(self)@ == old(self)@.push(key),
            relinked(old(nodes)@, final(nodes)@, old(self)@.push(key)),
    {
        let ghost before = nodes@;
        let ghost q = self@;
        let ghost q2 = q.push(key);
        {
            let waiter = nodes.get_mut(key);
            waiter.next = None;
            waiter.tail = Some(key);
        }
        match self.head {
            Some(head) => {
                proof {
                    assert(q.contains(q[0]));
                    assert(q.contains(q.last()));
                }
                let tail: usize = nodes.get(head).tail.unwrap();
                nodes.get_mut(head).tail = Some(key);
                nodes.get_mut(tail).next = Some(key);
                nodes.get_mut(key).prev = Some(tail);
            },
            None => {
                self.head = Some(key);
                nodes.get_mut(key).prev = None;
            },
        }
        self.keys = Ghost(q2);
        proof {
            assert forall|i: int| 0 <= i < q.len() implies q.contains(#[trigger] q[i]) by {}
            assert forall|i: int| 0 <= i < q2.len() implies q2.contains(#[trigger] q2[i]) by {}
            assert forall|i: int| 0 <= i < q.len() implies #[trigger] q2[i] == q[i] by {}
            assert(nodes@.dom() =~= before.dom());
            assert(q2[q.len() as int] == key);
            if q.len() > 0 {
                assert(q2[0] == q[0]);
                assert(q2[q.len() - 1] == q.last());
            }
            assert(relinked(before, nodes@, q2));
            assert(chained(nodes@, q2));
        }
    }
}

impl WaiterQueue {
    /// Takes a waiter out, unless it is alone in the queue. Says whether it did.
    pub fn try_remove<T>(&mut self, nodes: &mut Waiters<T>, key: usize) -> (removed: bool)
        requires
            old(self).wf(old(nodes)@),
            old(nodes)@.contains_key(key),
            old(self)@.contains(key) || (old(nodes)@[key].prev is None && old(
                nodes,
            )@[key].next is None),
        ensures
            removed == (old(self)@.contains(key) && old(self)@.len() > 1),
            final(self).wf(final(nodes)@),
            relinked(old(nodes)@, final(nodes)@, old(self)@),
            removed ==> {
                &&& final(self)@ == super::keys::without(old(self)@, key)
                &&& final(nodes)@[key].prev is None
                &&& final(nodes)@[key].next is None
                &&& final(nodes)@[key].tail is None
            },
            !removed ==> final(self)@ == old(self)@ && final(nodes)@ == old(nodes)@,
    {
        let ghost before = nodes@;
        let ghost q = self@;
        let head: usize = match self.head {
            Some(head) => head,
            None => {
                return false;
            },
        };
        let prev: Option<usize> = nodes.get(key).prev;
        let next: Option<usize> = nodes.get(key).next;
        if prev.is_none() && next.is_none() {
            proof {
                if q.contains(key) {
                    let i = q.index_of(key);
                    assert(before[q[i]].prev == prev_of(q, i));
                    assert(before[q[i]].next == next_of(q, i));
                }
            }
            return false;
        }
        let ghost n = q.index_of(key);
        let ghost q2 = q.remove(n);
        proof {
            assert(q[0] == head);
            assert(q.contains(key));
            assert(before[q[n]].prev == prev_of(q, n));
            assert(before[q[n]].next == next_of(q, n));
            assert forall|i: int| 0 <= i < q.len() implies q.contains(#[trigger] q[i]) by {}
        }
        let tail: Option<usize> = nodes.get(head).tail;
        if let Some(prev) = prev {
            nodes.get_mut(prev).next = next;
        }
        if let Some(next) = next {
            nodes.get_mut(next).prev = prev;
        }
        if head == key {
            self.head = next;
            if let Some(next) = next {
                nodes.get_mut(next).tail = tail;
            }
        } else if tail == Some(key) {
            nodes.get_mut(head).tail = prev;
        }
        {
            let waiter = nodes.get_mut(key);
            waiter.prev = None;
            waiter.next = None;
            waiter.tail = None;
        }
        self.keys = Ghost(q2);
        proof {
            assert(nodes@.dom() =~= before.dom());
            lemma_removed(before, nodes@, q, n);
        }
        true
    }

    /// Takes a waiter out, wherever it stands and though it is alone. Says whether it was in the
    /// queue.
    pub fn withdraw<T>(&mut self, nodes: &mut Waiters<T>, key: usize) -> (removed: bool)
        requires
            old(self).wf(old(nodes)@),
            old(nodes)@.contains_key(key),
            old(self)@.contains(key) || (old(nodes)@[key].prev is None && old(
                nodes,
            )@[key].next is None),
        ensures
            removed == old(self)@.contains(key),
            final(self).wf(final(nodes)@),
            relinked(old(nodes)@, final(nodes)@, old(self)@),
            removed ==> {
                &&& final(self)@ == super::keys::without(old(self)@, key)
                &&& final(nodes)@[key].prev is None
                &&& final(nodes)@[key].next is None
                &&& final(nodes)@[key].tail is None
            },
            !removed ==> final(self)@ == old(self)@ && final(nodes)@ == old(nodes)@,
    {
        let ghost before = nodes@;
        let ghost q = self@;
        if self.try_remove(nodes, key) {
            return true;
        }
        if self.head != Some(key) {
            return false;
        }
        proof {
            assert(q[0] == key);
            assert(q.contains(key));
            assert(q.index_of(key) == 0);
            assert(before[q[0]].prev == prev_of(q, 0));
            assert(before[q[0]].next == next_of(q, 0));
        }
        self.head = None;
        nodes.get_mut(key).tail = None;
        self.keys = Ghost(super::keys::without(q, key));
        proof {
            assert(self@ =~= Seq::empty());
            assert(nodes@.dom() =~= before.dom());
        }
        true
    }

    /// Whether a single waiter is in the queue.
    pub fn is_single<T>(&self, nodes: &Waiters<T>) -> (yes: bool)
        requires
            self.wf(nodes@),
        ensures
            yes == (self@.len() == 1),
    {
        match self.head {
            Some(head) => {
                assert(nodes@[self@[0]].next == next_of(self@, 0));
                nodes.get(head).next.is_none()
            },
            None => false,
        }
    }

    /// Takes the first waiter out. It is not alone.
    pub fn pop<T>(&mut self, nodes: &mut Waiters<T>) -> (key: Option<usize>)
        requires
            old(self).wf(old(nodes)@),
            old(self)@.len() != 1,
        ensures
            final(self).wf(final(nodes)@),
            relinked(old(nodes)@, final(nodes)@, old(self)@),
            match key {
                Some(key) => {
                    &&& old(self)@.len() > 0
                    &&& key == old(self)@[0]
                    &&& final(self)@ == old(self)@.drop_first()
                    &&& final(nodes)@[key].prev is None
                    &&& final(nodes)@[key].next is None
                    &&& final(nodes)@[key].tail is None
                },
                None => {
                    &&& old(self)@.len() == 0
                    &&& final(self)@ == old(self)@
                    &&& final(nodes)@ == old(nodes)@
                },
            },
    {
        match self.head {
            Some(head) => {
                let ghost q = self@;
                assert(q.contains(q[0]));
                let _removed: bool = self.try_remove(nodes, head);
                proof {
                    assert(q.index_of(head) == 0);
                    assert(super::keys::without(q, head) =~= q.drop_first());
                }
                Some(head)
            },
            None => None,
        }
    }

    /// Takes all waiters of another queue over, behind the own ones.
    pub fn consume<T>(&mut self, queue: &mut Self, nodes: &mut Waiters<T>)
        requires
            old(self).wf(old(nodes)@),
            old(queue).wf(old(nodes)@),
            forall|k: usize| !(#[trigger] old(self)@.contains(k) && old(queue)@.contains(k)),
        ensures
            final(self).wf(final(nodes)@),
            final(queue).wf(final(nodes)@),
            final(self)@ == old(self)@ + old(queue)@,
            final(queue)@ == Seq::<usize>::empty(),
            relinked(old(nodes)@, final(nodes)@, old(self)@ + old(queue)@),
    {
        let ghost before = nodes@;
        let ghost q = self@;
        let ghost r = queue@;
        proof {
            if q.len() > 0 {
                assert(q.contains(q[0]));
                assert(q.contains(q.last()));
            }
            if r.len() > 0 {
                assert(r.contains(r[0]));
            }
        }
        if let Some(queue_head) = queue.head.take() {
            let queue_tail: usize = nodes.get(queue_head).tail.unwrap();
            match self.head {
                Some(head) => {
                    let tail: usize = nodes.get(head).tail.unwrap();
                    nodes.get_mut(head).tail = Some(queue_tail);
                    nodes.get_mut(tail).next = Some(queue_head);
                    nodes.get_mut(queue_head).prev = Some(tail);
                },
                None => {
                    self.head = Some(queue_head);
                },
            }
        }
        self.keys = Ghost(q + r);
        queue.keys = Ghost(Seq::empty());
        proof {
            assert(nodes@.dom() =~= before.dom());
            if r.len() == 0 {
                assert(q + r =~= q);
            } else if q.len() == 0 {
                assert(q + r =~= r);
            } else {
                lemma_joined(before, nodes@, q, r);
            }
        }
    }
}

/// The waiters under `q` and those under `r`, each linked in their order, are linked in one order
/// once the last of `q` and the first of `r` know each other and the first of `q` knows the last of
/// `r`.
proof fn lemma_joined<T>(
    before: Map<usize, Waiter<T>>,
    after: Map<usize, Waiter<T>>,
    q: Seq<usize>,
    r: Seq<usize>,
)
    requires
        chained(before, q),
        chained(before, r),
        q.len() > 0,
        r.len() > 0,
        forall|k: usize| !(#[trigger] q.contains(k) && r.contains(k)),
        after.dom() == before.dom(),
        forall|k: usize| #[trigger]
            after.contains_key(k) ==> {
                let node = before[k];
                after[k] == Waiter {
                    prev: if k == r[0] {
                        Some(q.last())
                    } else {
                        node.prev
                    },
                    next: if k == q.last() {
                        Some(r[0])
                    } else {
                        node.next
                    },
                    tail: if k == q[0] {
                        Some(r.last())
                    } else {
                        node.tail
                    },
                    ..node
                }
            },
    ensures
        chained(after, q + r),
        relinked(before, after, q + r),
{
    let s = q + r;
    assert forall|i: int| 0 <= i < q.len() implies q.contains(#[trigger] q[i]) by {}
    assert forall|i: int| 0 <= i < r.len() implies r.contains(#[trigger] r[i]) by {}
    assert forall|i: int| 0 <= i < s.len() implies #[trigger] s[i] == if i < q.len() {
        q[i]
    } else {
        r[i - q.len()]
    } by {}
    assert forall|i: int| 0 <= i < s.len() implies after.contains_key(#[trigger] s[i])
        && after[s[i]].prev == prev_of(s, i) && after[s[i]].next == next_of(s, i) by {
        if i < q.len() {
            assert(before[q[i]].prev == prev_of(q, i));
            assert(before[q[i]].next == next_of(q, i));
        } else {
            assert(before[r[i - q.len()]].prev == prev_of(r, i - q.len()));
            assert(before[r[i - q.len()]].next == next_of(r, i - q.len()));
        }
    }
    assert(s.no_duplicates());
    assert(s[0] == q[0]);
    assert(s.last() == r.last());
    assert(s[q.len() - 1] == q.last());
    assert(s[q.len() as int] == r[0]);
    assert forall|k: usize| #[trigger] after.contains_key(k) && !s.contains(k) implies after[k]
        == before[k] by {
        assert(s.contains(s[0]));
        assert(s.contains(s[q.len() - 1]));
        assert(s.contains(s[q.len() as int]));
    }
}

/// The waiters under `q` stay linked in their order when the one at position `n` is taken out: its
/// neighbours know each other, and the first one that is left knows the last one.
proof fn lemma_removed<T>(
    before: Map<usize, Waiter<T>>,
    after: Map<usize, Waiter<T>>,
    q: Seq<usize>,
    n: int,
)
    requires
        chained(before, q),
        0 <= n < q.len(),
        after.dom() == before.dom(),
        forall|k: usize| #[trigger]
            after.contains_key(k) ==> after[k].entry() == before[k].entry() && {
                let node = after[k];
                if k == q[n] {
                    node.prev is None && node.next is None && node.tail is None
                } else {
                    &&& node.prev == if next_of(q, n) == Some(k) {
                        prev_of(q, n)
                    } else {
                        before[k].prev
                    }
                    &&& node.next == if prev_of(q, n) == Some(k) {
                        next_of(q, n)
                    } else {
                        before[k].next
                    }
                    &&& node.tail == if n == 0 && next_of(q, n) == Some(k) {
                        Some(q.last())
                    } else if n > 0 && n == q.len() - 1 && k == q[0] {
                        prev_of(q, n)
                    } else {
                        before[k].tail
                    }
                }
            },
    ensures
        chained(after, q.remove(n)),
        relinked(before, after, q),
{
    let q2 = q.remove(n);
    assert forall|i: int| 0 <= i < q.len() implies q.contains(#[trigger] q[i]) by {}
    assert forall|i: int| 0 <= i < q2.len() implies #[trigger] q2[i] == if i < n {
        q[i]
    } else {
        q[i + 1]
    } by {}
    assert forall|i: int| 0 <= i < q2.len() implies after.contains_key(#[trigger] q2[i])
        && after[q2[i]].prev == prev_of(q2, i) && after[q2[i]].next == next_of(q2, i) by {
        let j = if i < n {
            i
        } else {
            i + 1
        };
        assert(before.contains_key(q[j]));
        assert(before[q[j]].prev == prev_of(q, j));
        assert(before[q[j]].next == next_of(q, j));
    }
    assert(q2.no_duplicates());
}

} // verus!
