use std::sync::atomic::{AtomicUsize, Ordering};
use std::sync::Arc;
use std::task::{Wake, Waker};

use floom::channel::blocking::to_timeout_error;
use floom::channel::chan::Chan;
use floom::channel::future::{AsFutureOp, FutureOpState};
use floom::channel::waiter::WaiterState;
use floom::{
    Blocking, Channel, Poll, Round, SendError, SendFuture, TryRecvError, TrySendError,
    TrySendTimeoutError,
};

struct Counter(AtomicUsize);

impl Wake for Counter {
    fn wake(self: Arc<Self>) {
        self.0.fetch_add(1, Ordering::SeqCst);
    }
}

fn counter() -> (Arc<Counter>, Waker) {
    let counter = Arc::new(Counter(AtomicUsize::new(0)));
    (counter.clone(), Waker::from(counter))
}

fn waker() -> Waker {
    counter().1
}

fn woken(counter: &Arc<Counter>) -> usize {
    counter.0.load(Ordering::SeqCst)
}

fn send<T>(chan: &mut Chan<T>, item: T) -> Result<bool, TrySendError<T>> {
    chan.try_send(item).map(|waker| waker.is_some())
}

fn recv<T>(chan: &mut Chan<T>) -> Result<T, TryRecvError> {
    chan.try_recv().map(|(item, waker)| {
        if let Some(waker) = waker {
            waker.wake();
        }
        item
    })
}

#[test]
fn a_bounded_channel_is_full_at_its_bound() {
    let mut chan = Chan::bounded(3);
    assert!(!chan.is_unbounded());
    assert_eq!(chan.capacity(), 3);
    for i in 0..3 {
        assert_eq!(send(&mut chan, i), Ok(false));
    }
    assert_eq!(chan.size(), 3);
    assert_eq!(send(&mut chan, 9), Err(TrySendError::Full(9)));
    assert_eq!(recv(&mut chan), Ok(0));
    assert_eq!(send(&mut chan, 3), Ok(false));
    assert_eq!(send(&mut chan, 4), Err(TrySendError::Full(4)));
    for i in 1..4 {
        assert_eq!(recv(&mut chan), Ok(i));
    }
    assert_eq!(recv(&mut chan), Err(TryRecvError::Empty));
}

#[test]
fn a_ring_goes_round_for_every_capacity() {
    for capacity in 1..20usize {
        let mut chan = Chan::bounded(capacity);
        let mut sent = 0u32;
        let mut received = 0u32;
        for round in 0..100u32 {
            for _ in 0..(round % (capacity as u32 + 1)) {
                if send(&mut chan, sent).is_ok() {
                    sent += 1;
                }
            }
            for _ in 0..(round % 3) {
                if let Ok(item) = recv(&mut chan) {
                    assert_eq!(item, received);
                    received += 1;
                }
            }
            assert_eq!(chan.size() as u32, sent - received);
        }
        assert!(received > 20);
    }
}

#[test]
fn an_unbounded_channel_grows() {
    let mut chan = Chan::unbounded();
    assert!(chan.is_unbounded());
    assert_eq!(chan.capacity(), 0);
    assert_eq!(send(&mut chan, 0), Ok(false));
    assert_eq!(chan.capacity(), 8);
    // Some items are taken first, so that the ring has gone round when it grows.
    assert_eq!(recv(&mut chan), Ok(0));
    for i in 1..9 {
        assert_eq!(send(&mut chan, i), Ok(false));
    }
    assert_eq!(chan.capacity(), 8);
    assert_eq!(send(&mut chan, 9), Ok(false));
    assert_eq!(chan.capacity(), 16);
    for i in 10..1000 {
        assert_eq!(send(&mut chan, i), Ok(false));
    }
    assert_eq!(chan.capacity(), 1024);
    for i in 1..1000 {
        assert_eq!(recv(&mut chan), Ok(i));
    }
    assert_eq!(recv(&mut chan), Err(TryRecvError::Empty));
}

#[test]
fn a_position_wraps_at_the_capacity() {
    let chan: Chan<u8> = Chan::bounded(8);
    assert_eq!(chan.wrap(8), 0);
    assert_eq!(chan.wrap(13), 5);
    assert_eq!(chan.wrap(usize::MAX), 7);
    let chan: Chan<u8> = Chan::bounded(10);
    assert_eq!(chan.wrap(8), 8);
    assert_eq!(chan.wrap(13), 3);
    let chan: Chan<u8> = Chan::bounded(1);
    assert_eq!(chan.wrap(5), 0);
}

#[test]
fn a_capacity_is_cut_to_what_can_be_counted() {
    let chan: Chan<u8> = Chan::bounded(usize::MAX);
    assert_eq!(chan.capacity(), usize::MAX / 2);
    assert!(!chan.is_unbounded());
}

#[test]
fn a_large_bound_takes_no_room_in_advance() {
    let mut chan = Chan::bounded(usize::MAX);
    assert_eq!(send(&mut chan, 1), Ok(false));
    assert_eq!(recv(&mut chan), Ok(1));
}

#[test]
fn a_channel_without_room_hands_items_over() {
    let mut chan = Chan::bounded(0);
    assert_eq!(send(&mut chan, 1), Err(TrySendError::Full(1)));
    let (count, waker_of_first) = counter();
    let first = chan.enqueue(WaiterState::Receiving, waker_of_first);
    let second = chan.enqueue(WaiterState::Receiving, waker());
    assert_eq!(send(&mut chan, 2), Ok(true));
    assert_eq!(woken(&count), 0);
    assert_eq!(chan.take_waiter(first), WaiterState::Received(2));
    assert_eq!(chan.poll_waiter(second, waker()), Poll::Pending);
}

#[test]
fn receivers_are_served_in_the_order_in_which_they_came() {
    let mut chan = Chan::unbounded();
    let first = chan.enqueue(WaiterState::Receiving, waker());
    let second = chan.enqueue(WaiterState::Receiving, waker());
    let third = chan.enqueue(WaiterState::Receiving, waker());
    assert_ne!(first, second);
    assert_eq!(send(&mut chan, 'a'), Ok(true));
    assert_eq!(send(&mut chan, 'b'), Ok(true));
    assert_eq!(chan.take_waiter(first), WaiterState::Received('a'));
    assert_eq!(chan.take_waiter(second), WaiterState::Received('b'));
    assert_eq!(chan.poll_waiter(third, waker()), Poll::Pending);
    assert!(!chan.can_send());
}

#[test]
fn the_first_sender_that_waits_comes_before_the_buffer() {
    let mut chan = Chan::bounded(1);
    assert_eq!(send(&mut chan, 1), Ok(false));
    let (count, waker_of_first) = counter();
    let key = chan.enqueue(WaiterState::Sending(2), waker_of_first);
    let other = chan.enqueue(WaiterState::Sending(3), waker());
    assert_eq!(recv(&mut chan), Ok(2));
    assert_eq!(woken(&count), 1);
    assert_eq!(chan.take_waiter(key), WaiterState::Sent);
    assert_eq!(chan.cancel_sender(other), WaiterState::Sending(3));
    assert_eq!(recv(&mut chan), Ok(1));
}

#[test]
fn a_waiter_leaves_its_queue_wherever_it_stands() {
    for leaves in 0..3 {
        let mut chan = Chan::bounded(0);
        let mut keys = Vec::new();
        for i in 0..3 {
            keys.push(chan.enqueue(WaiterState::Sending(i), waker()));
        }
        assert!(chan.try_remove(true, keys[leaves]));
        assert!(!chan.try_remove(true, keys[leaves]));
        assert_eq!(chan.take_waiter(keys[leaves]), WaiterState::Sending(leaves));
        keys.push(chan.enqueue(WaiterState::Sending(3), waker()));
        let last = chan.enqueue(WaiterState::Sending(4), waker());
        for i in 0..4 {
            if i != leaves {
                assert_eq!(recv(&mut chan), Ok(i));
            }
        }
        assert_eq!(chan.cancel_sender(last), WaiterState::Sending(4));
        assert_eq!(recv(&mut chan), Err(TryRecvError::Empty));
    }
}

#[test]
fn a_waiter_that_is_alone_stays_in_its_queue() {
    let mut chan: Chan<u8> = Chan::bounded(0);
    let key = chan.enqueue(WaiterState::Receiving, waker());
    assert!(!chan.try_remove(false, key));
    assert!(!chan.can_send());
    let other = chan.enqueue(WaiterState::Receiving, waker());
    assert!(chan.can_send());
    assert!(chan.try_remove(false, key));
    assert!(!chan.try_remove(false, key));
    assert!(!chan.try_remove(false, other));

    let mut chan: Chan<u8> = Chan::bounded(0);
    let key = chan.enqueue(WaiterState::Sending(1), waker());
    assert!(!chan.try_remove(true, key));
    assert!(!chan.can_recv());
    assert_eq!(chan.cancel_sender(key), WaiterState::Sending(1));
    assert!(chan.can_recv());
    assert_eq!(recv(&mut chan), Err(TryRecvError::Empty));
}

#[test]
fn a_closed_channel_refuses_everything() {
    let mut channel = Channel::bounded(2);
    assert!(!channel.is_closed());
    assert!(channel.try_send(1).unwrap().is_none());
    assert!(channel.close().is_empty());
    assert!(channel.is_closed());
    assert!(matches!(channel.try_send(2), Err(TrySendError::Closed(2))));
    assert!(channel.close().is_empty());
    assert!(channel.is_closed());

    let mut chan = Chan::unbounded();
    assert_eq!(send(&mut chan, 1), Ok(false));
    let waiting = chan.close();
    assert!(chan.tell_closed(waiting).is_empty());
    assert_eq!(chan.size(), 0);
    assert_eq!(recv(&mut chan), Err(TryRecvError::Closed));
}

#[test]
fn closing_drops_the_items_that_the_channel_holds() {
    let item = Arc::new(());
    let mut channel = Channel::unbounded();
    for _ in 0..5 {
        assert!(channel.try_send(item.clone()).is_ok());
    }
    assert_eq!(Arc::strong_count(&item), 6);
    channel.close();
    assert_eq!(Arc::strong_count(&item), 1);
}

#[test]
fn closing_tells_those_who_wait() {
    let mut chan = Chan::bounded(0);
    let (receiver, waker) = counter();
    let receiving = chan.enqueue(WaiterState::Receiving, waker);
    let (sender, waker) = counter();
    let sending = chan.enqueue(WaiterState::Sending(5), waker);
    let waiting = chan.close();
    let wakers = chan.tell_closed(waiting);
    assert_eq!(wakers.len(), 2);
    let mut wakers = wakers.into_iter();
    wakers.next().unwrap().wake();
    assert_eq!((woken(&sender), woken(&receiver)), (1, 0));
    wakers.next().unwrap().wake();
    assert_eq!((woken(&sender), woken(&receiver)), (1, 1));
    assert!(!chan.try_remove(true, sending));
    assert_eq!(chan.take_waiter(sending), WaiterState::Closed(Some(5)));
    assert_eq!(chan.take_waiter(receiving), WaiterState::Closed(None));
}

#[test]
fn a_future_sends_at_once_where_there_is_room() {
    let mut channel = Channel::bounded(1);
    let mut future = channel.send_async(1);
    let poll = future.poll(&mut channel, waker());
    assert_eq!(poll, Poll::Ready(Ok(())));
    assert!(matches!(future.as_future_op().state, FutureOpState::Completed));
    assert!(matches!(channel.try_send(2), Err(TrySendError::Full(2))));
}

#[test]
fn a_future_waits_for_room_and_learns_of_the_closing() {
    let mut channel = Channel::bounded(1);
    assert!(channel.try_send(1).is_ok());
    let (first, waker) = counter();
    let mut future = channel.send_async(2);
    assert_eq!(future.poll(&mut channel, waker), Poll::Pending);
    assert!(matches!(future.as_future_op().state, FutureOpState::Waiting(_)));
    let (second, waker) = counter();
    assert_eq!(future.poll(&mut channel, waker), Poll::Pending);
    for waker in channel.close() {
        waker.wake();
    }
    assert_eq!((woken(&first), woken(&second)), (0, 1));
    let (_, waker) = counter();
    assert_eq!(future.poll(&mut channel, waker), Poll::Ready(Err(SendError::Closed(2))));
}

#[test]
fn a_future_of_a_closed_channel_gives_the_item_back() {
    let mut channel = Channel::unbounded();
    channel.close();
    let mut future = channel.send_async("item");
    let poll = future.poll(&mut channel, waker());
    assert_eq!(poll, Poll::Ready(Err(SendError::Closed("item"))));
}

#[test]
fn a_future_that_is_dropped_leaves_the_queue() {
    let mut channel = Channel::bounded(0);
    let item = Arc::new(());
    let mut future = channel.send_async(item.clone());
    assert_eq!(future.poll(&mut channel, waker()), Poll::Pending);
    assert_eq!(Arc::strong_count(&item), 2);
    future.drop(&mut channel);
    assert_eq!(Arc::strong_count(&item), 1);
    assert!(channel.close().is_empty());
}

#[test]
fn a_cancelled_future_is_not_woken() {
    let mut channel = Channel::bounded(0);
    let mut future = channel.send_async(1);
    assert_eq!(future.poll(&mut channel, waker()), Poll::Pending);
    // Alone, it stays in the queue.
    assert!(!future.try_cancel(&mut channel));
    let mut other = channel.send_async(2);
    assert_eq!(other.poll(&mut channel, waker()), Poll::Pending);
    assert!(future.try_cancel(&mut channel));
    assert!(!future.try_cancel(&mut channel));
    assert_eq!(channel.close().len(), 1);
}

fn parked<T, E>(outcome: Blocking<T, E>) -> SendFuture<T> {
    match outcome {
        Blocking::Parked(future) => future,
        Blocking::Done(_) => panic!("the thread does not park"),
    }
}

fn done<T, E>(outcome: Blocking<T, E>) -> Result<(), E> {
    match outcome {
        Blocking::Done(result) => result,
        Blocking::Parked(_) => panic!("the thread parks"),
    }
}

#[test]
fn a_blocking_send_parks_until_the_channel_is_closed() {
    let mut channel = Channel::bounded(1);
    assert_eq!(done(channel.send(1, waker())), Ok(()));
    let (count, waker) = counter();
    let future = parked(channel.send(2, waker.clone()));
    let future = parked(channel.resume_send(future, waker.clone()));
    for waker in channel.close() {
        waker.wake();
    }
    assert_eq!(woken(&count), 1);
    assert_eq!(done(channel.resume_send(future, waker.clone())), Err(SendError::Closed(2)));
    assert_eq!(done(channel.send(3, waker)), Err(SendError::Closed(3)));
}

#[test]
fn a_send_with_a_deadline_times_out() {
    let mut channel = Channel::bounded(1);
    assert_eq!(done(channel.try_send_until(1, 10, 20, waker())), Ok(()));
    assert_eq!(
        done(channel.try_send_until(2, 10, 10, waker())),
        Err(TrySendTimeoutError::TimedOut(2))
    );
    let future = parked(channel.try_send_until(3, 10, 9, waker()));
    assert_eq!(
        done(channel.resume_until(future, 10, 10, waker())),
        Err(TrySendTimeoutError::TimedOut(3))
    );
    assert!(channel.close().is_empty());
    assert_eq!(
        done(channel.try_send_until(4, 10, 0, waker())),
        Err(TrySendTimeoutError::Closed(4))
    );
}

#[test]
fn closing_comes_before_the_deadline() {
    let mut channel = Channel::bounded(0);
    let future = parked(channel.try_send_until(1, 10, 0, waker()));
    assert_eq!(channel.close().len(), 1);
    assert_eq!(
        done(channel.resume_until(future, 10, 99, waker())),
        Err(TrySendTimeoutError::Closed(1))
    );
}

#[test]
fn a_send_with_a_timeout_has_a_deadline() {
    let mut channel = Channel::bounded(0);
    let (outcome, deadline) = channel.try_send_for(1, 5, 100, waker());
    assert_eq!(deadline, 105);
    let future = parked(outcome);
    let future = parked(channel.resume_until(future, deadline, 104, waker()));
    assert_eq!(
        done(channel.resume_until(future, deadline, 105, waker())),
        Err(TrySendTimeoutError::TimedOut(1))
    );
    let (outcome, _) = channel.try_send_for(2, 0, 100, waker());
    assert_eq!(done(outcome), Err(TrySendTimeoutError::TimedOut(2)));
}

#[test]
fn a_round_says_what_has_become_of_the_task() {
    let mut channel = Channel::bounded(0);
    let mut future = channel.send_async(8);
    let round = channel.sync(Some(5), 5, &mut future, waker());
    assert!(matches!(round, Round::TimedOut(WaiterState::Sending(8))));
    assert!(matches!(future.as_future_op().state, FutureOpState::Completed));
}

#[test]
fn why_an_item_was_not_sent_in_time() {
    assert_eq!(
        to_timeout_error(WaiterState::Closed(Some(1))),
        Some(TrySendTimeoutError::Closed(1))
    );
    assert_eq!(
        to_timeout_error(WaiterState::Sending(1)),
        Some(TrySendTimeoutError::TimedOut(1))
    );
    assert_eq!(to_timeout_error::<u8>(WaiterState::Sent), None);
    assert_eq!(to_timeout_error::<u8>(WaiterState::Closed(None)), None);
}

#[test]
fn nothing_is_lost_and_nothing_is_received_twice() {
    let mut seed = 3u64;
    for bound in 0..5usize {
        let mut chan = Chan::bounded(bound);
        let mut waiting: Vec<usize> = Vec::new();
        let mut sent = 0u32;
        let mut received = Vec::new();
        for _ in 0..2000 {
            seed = seed.wrapping_mul(6364136223846793005).wrapping_add(1442695040888963407);
            if seed >> 62 < 2 {
                match chan.try_send(sent) {
                    Ok(_) => {}
                    Err(TrySendError::Full(item)) => {
                        waiting.push(chan.enqueue(WaiterState::Sending(item), waker()));
                    }
                    Err(TrySendError::Closed(_)) => panic!("the channel is open"),
                }
                sent += 1;
            } else if chan.can_recv() {
                if let Ok(item) = recv(&mut chan) {
                    received.push(item);
                }
            }
        }
        let mut returned = Vec::new();
        for key in waiting {
            match chan.cancel_sender(key) {
                WaiterState::Sent => {}
                WaiterState::Sending(item) => returned.push(item),
                _ => panic!("the channel is open"),
            }
        }
        while let Ok(item) = recv(&mut chan) {
            received.push(item);
        }
        received.append(&mut returned);
        received.sort();
        assert_eq!(received, (0..sent).collect::<Vec<u32>>());
    }
}

#[test]
fn a_sender_learns_that_its_item_was_taken() {
    let mut chan = Chan::bounded(0);
    let key = chan.enqueue(WaiterState::Sending('x'), waker());
    let other = chan.enqueue(WaiterState::Sending('y'), waker());
    assert_eq!(chan.poll_waiter(key, waker()), Poll::Pending);
    assert_eq!(recv(&mut chan), Ok('x'));
    assert_eq!(chan.poll_waiter(key, waker()), Poll::Ready(()));
    assert_eq!(chan.poll_waiter(other, waker()), Poll::Pending);
    assert_eq!(chan.take_waiter(key), WaiterState::Sent);
}

#[test]
fn nobody_waits_while_there_is_room_or_an_item() {
    let mut chan = Chan::bounded(1);
    assert_eq!(send(&mut chan, 1), Ok(false));
    assert_eq!(send(&mut chan, 2), Err(TrySendError::Full(2)));
    let key = chan.enqueue(WaiterState::Sending(2), waker());
    let other = chan.enqueue(WaiterState::Sending(3), waker());
    // The sender that waited is served, and the channel is full as before.
    assert_eq!(recv(&mut chan), Ok(2));
    assert_eq!(chan.take_waiter(key), WaiterState::Sent);
    assert_eq!(send(&mut chan, 4), Err(TrySendError::Full(4)));
    assert_eq!(chan.cancel_sender(other), WaiterState::Sending(3));
    assert_eq!(recv(&mut chan), Ok(1));
    assert_eq!(recv(&mut chan), Err(TryRecvError::Empty));
    // A receiver that waits gets the next item, and the buffer stays empty.
    let key = chan.enqueue(WaiterState::Receiving, waker());
    chan.enqueue(WaiterState::Receiving, waker());
    assert_eq!(send(&mut chan, 5), Ok(true));
    assert_eq!(chan.size(), 0);
    assert_eq!(chan.take_waiter(key), WaiterState::Received(5));
}

#[test]
fn a_channel_says_whether_it_can_take_an_item() {
    assert!(Chan::<u8>::unbounded().can_send());
    assert!(Chan::<u8>::bounded(usize::MAX).can_send());
    assert!(Channel::<u8>::bounded(0).can_send());
    let mut chan = Chan::<u8>::unbounded();
    chan.enqueue(WaiterState::Receiving, waker());
    assert!(!chan.can_send());
    let waiting = chan.close();
    assert_eq!(chan.tell_closed(waiting).len(), 1);
    assert!(chan.can_send());
}

#[test]
fn keys_of_those_who_left_are_used_again() {
    let mut chan = Chan::bounded(0);
    let first = chan.enqueue(WaiterState::Sending(1), waker());
    let second = chan.enqueue(WaiterState::Sending(2), waker());
    assert_eq!(chan.cancel_sender(first), WaiterState::Sending(1));
    let third = chan.enqueue(WaiterState::Sending(3), waker());
    assert_eq!(third, first);
    assert_eq!(recv(&mut chan), Ok(2));
    assert_eq!(chan.cancel_sender(third), WaiterState::Sending(3));
    assert_eq!(chan.cancel_sender(second), WaiterState::Sent);
}

#[test]
fn a_channel_is_closed_only_by_closing_it() {
    let mut channel = Channel::bounded(1);
    assert!(channel.try_send(1).is_ok());
    assert!(channel.try_send(2).is_err());
    let mut future = channel.send_async(3);
    assert_eq!(future.poll(&mut channel, waker()), Poll::Pending);
    future.drop(&mut channel);
    assert!(!channel.is_closed());
    channel.close();
    assert!(channel.is_closed());
}

#[test]
fn sending_for_a_time_is_sending_until_then() {
    for bound in 0..2 {
        for timeout in [0u64, 3] {
            let mut one = Channel::bounded(bound);
            let mut other = Channel::bounded(bound);
            let (first, deadline) = one.try_send_for(1, timeout, 7, waker());
            let second = other.try_send_until(1, 7 + timeout, 7, waker());
            assert_eq!(deadline, 7 + timeout);
            match (first, second) {
                (Blocking::Done(first), Blocking::Done(second)) => assert_eq!(first, second),
                (Blocking::Parked(_), Blocking::Parked(_)) => {}
                _ => panic!("the outcomes differ"),
            }
        }
    }
}
