use futures::stream::StreamExt;

use async_change_tracker::channel::retains_subscriber;
use async_change_tracker::channel::SendOutcome;
use async_change_tracker::ChangeTracker;

// Store 123, subscribe with capacity 1, add one: the value reads back as 124
// and the subscription yields the (123, 124) snapshot pair.
#[test]
fn single_mutation_delivers_snapshot_pair() {
    let mut tracker = ChangeTracker::new(123);
    let rx = tracker.get_changes(1);

    tracker.modify(|x: &i32| *x + 1);
    assert_eq!(*tracker.as_ref(), 124);

    drop(tracker);
    let got: Vec<(i32, i32)> = futures::executor::block_on(rx.collect());
    assert_eq!(got, vec![(123, 124)]);
}

// Two subscriptions of equal capacity, both created before the mutation:
// both receive the identical (old, new) pair.
#[test]
fn two_subscribers_receive_identical_pair() {
    let mut tracker = ChangeTracker::new(123);
    let rx1 = tracker.get_changes(1);
    let rx2 = tracker.get_changes(1);
    assert_eq!(tracker.subscriber_count(), 2);

    tracker.modify(|x: &i32| *x + 1);

    drop(tracker);
    let got1: Vec<(i32, i32)> = futures::executor::block_on(rx1.collect());
    let got2: Vec<(i32, i32)> = futures::executor::block_on(rx2.collect());
    assert_eq!(got1, vec![(123, 124)]);
    assert_eq!(got1, got2);
}

// A subscription whose channel holds one in-flight notification at most
// (capacity 0: the sender's single guaranteed slot): of two mutations made
// before the subscriber reads anything, exactly the first is delivered, and
// reading never blocks, fails or panics.
#[test]
fn full_queue_drops_notification() {
    let mut tracker = ChangeTracker::new(0);
    let mut rx = tracker.get_changes(0);

    tracker.modify(|x: &i32| *x + 1);
    tracker.modify(|x: &i32| *x + 1);
    assert_eq!(*tracker.as_ref(), 2);
    // The subscriber stayed registered: a full queue only drops the one
    // notification.
    assert_eq!(tracker.subscriber_count(), 1);

    // Non-blocking reads: the first yields the surviving notification, the
    // second reports an empty queue rather than blocking.
    let first = rx.try_next();
    assert_eq!(first.ok(), Some(Some((0, 1))));
    let second = rx.try_next();
    assert!(second.is_err());

    // After the tracker is gone the stream ends; nothing else was queued.
    drop(tracker);
    let rest: Vec<(i32, i32)> = futures::executor::block_on(rx.collect());
    assert_eq!(rest, vec![]);
}

// The channel primitive grants each sender one slot beyond the requested
// buffer: with capacity 1, two notifications fit and the third is dropped.
#[test]
fn capacity_one_buffers_two_notifications() {
    let mut tracker = ChangeTracker::new(0);
    let rx = tracker.get_changes(1);

    tracker.modify(|x: &i32| *x + 1);
    tracker.modify(|x: &i32| *x + 1);
    tracker.modify(|x: &i32| *x + 1);
    assert_eq!(*tracker.as_ref(), 3);

    drop(tracker);
    let got: Vec<(i32, i32)> = futures::executor::block_on(rx.collect());
    assert_eq!(got, vec![(0, 1), (1, 2)]);
}

// Store 0, no subscriptions: three increments leave 3 behind and nothing
// panics.
#[test]
fn three_mutations_without_subscribers() {
    let mut tracker = ChangeTracker::new(0);
    tracker.modify(|x: &i32| *x + 1);
    tracker.modify(|x: &i32| *x + 1);
    tracker.modify(|x: &i32| *x + 1);
    assert_eq!(*tracker.as_ref(), 3);
    assert_eq!(tracker.subscriber_count(), 0);
}

// Discarding a subscription and then mutating does not fail, and the next
// mutation prunes the dead entry from the registry.
#[test]
fn dropped_subscription_is_pruned_on_next_mutation() {
    let mut tracker = ChangeTracker::new(10);
    let rx_live = tracker.get_changes(4);
    let rx_dead = tracker.get_changes(4);
    assert_eq!(tracker.subscriber_count(), 2);

    drop(rx_dead);
    // Discarding alone is discovered lazily: nothing changes yet.
    assert_eq!(tracker.subscriber_count(), 2);

    tracker.modify(|x: &i32| *x * 2);
    assert_eq!(tracker.subscriber_count(), 1);

    // The surviving subscriber still hears of the change.
    drop(tracker);
    let got: Vec<(i32, i32)> = futures::executor::block_on(rx_live.collect());
    assert_eq!(got, vec![(10, 20)]);
}

// A subscription observes only mutations made after its creation.
#[test]
fn no_backfill_of_earlier_mutations() {
    let mut tracker = ChangeTracker::new(1);
    tracker.modify(|x: &i32| *x + 1);
    let rx = tracker.get_changes(3);
    tracker.modify(|x: &i32| *x + 1);
    drop(tracker);
    let got: Vec<(i32, i32)> = futures::executor::block_on(rx.collect());
    assert_eq!(got, vec![(2, 3)]);
}

// The broadcast failure policy: only a disconnected receiver unregisters a
// subscriber; an accepted send and a full queue both keep it.
#[test]
fn retains_subscriber_policy() {
    assert!(retains_subscriber(&SendOutcome::Accepted));
    assert!(retains_subscriber(&SendOutcome::Full));
    assert!(!retains_subscriber(&SendOutcome::Disconnected));
}
