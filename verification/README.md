# floom

Channels between threads and tasks, with the locks and signals that they rest on, written and
proved in Verus.

- `src/channel` holds a channel: a ring of items, the queues of the tasks that wait to send or to
  receive, futures that send, and sending that blocks. `laws.rs` and `runs.rs` state what holds over
  several operations.
- `src/lock` holds the lock around a channel. Its threads spin, then wait in a list that is linked
  through their own waiters. `system.rs` proves what holds for any number of threads.
- `src/waker` holds the slot through which a waiting task is woken.
- `src/sync` holds a spinning mutex, a signal, and how threads back off.
- `app` runs all of this on atomics and threads.

What several threads do at once is written as machines: a machine says which access to the shared
memory comes next, and goes on from the answer. The proofs are about all orders in which the
accesses of the threads can follow one another. Which memory ordering each access needs is outside
of them; `app` makes every access sequentially consistent.
