//! Change notifications for a single owned value, delivered over bounded,
//! lossy channels.
//!
//! A [`ChangeTracker<T>`] owns a value of type `T`. The value is read with
//! [`ChangeTracker::as_ref`] and changed only through
//! [`ChangeTracker::modify`], which takes a function of the current value.
//! Whoever wants to hear of changes calls [`ChangeTracker::get_changes`]
//! and is handed the receiving end of a bounded channel; every later
//! mutation then attempts a non-blocking delivery of the
//! `(old value, new value)` snapshot pair to every registered subscriber.
//! A subscriber whose queue is full misses that one notification; one whose
//! receiver was dropped is removed from the registry. A mutation therefore
//! never fails and never blocks on a subscriber.

use vstd::prelude::*;

pub mod channel;
pub mod registry;

use futures::channel::mpsc::Receiver;
use futures::channel::mpsc::Sender;

use crate::channel::change_channel;
use crate::channel::retains_subscriber;
use crate::channel::send_change;
use crate::registry::all_below;
use crate::registry::all_distinct;
use crate::registry::kept_entries;
use crate::registry::lemma_kept_entries_below;
use crate::registry::lemma_kept_entries_distinct;
use crate::registry::lemma_kept_entries_len;

verus! {

/// Tracks changes to an owned value and notifies subscribers of every
/// mutation through bounded, lossy channels.
///
/// Each subscription is denoted in the model by the serial number it was
/// issued at creation ([`ChangeTracker::sub_ids`]); the serial numbers are
/// ghost bookkeeping and cost nothing at run time.
#[verifier::reject_recursive_types(T)]
pub struct ChangeTracker<T> {
    value: T,
    senders: Vec<Sender<(T, T)>>,
    ids: Ghost<Seq<nat>>,
    next_id: Ghost<nat>,
}

impl<T> ChangeTracker<T> {
    /// The value the tracker holds now.
    pub closed spec fn current_value(&self) -> T {
        self.value
    }

    /// The serial numbers of the live subscriptions, in registration order.
    pub closed spec fn sub_ids(&self) -> Seq<nat> {
        self.ids@
    }

    /// How many subscriptions have ever been created on this tracker; also
    /// the serial number the next subscription will get.
    pub closed spec fn issued(&self) -> nat {
        self.next_id@
    }

    /// The tracker's invariant: one registry entry per live subscription,
    /// no subscription registered twice, and every serial number already
    /// issued.
    pub closed spec fn well_formed(&self) -> bool {
        &&& self.ids@.len() == self.senders@.len()
        &&& all_distinct(self.ids@)
        &&& all_below(self.ids@, self.next_id@)
    }

    /// Read-only access to the current value.
    pub fn as_ref(&self) -> (current: &T)
        ensures
            *current == self.current_value(),
    {
        &self.value
    }

    /// How many subscribers are registered right now. A subscriber that
    /// dropped its receiver is still counted until the next mutation
    /// discovers it.
    pub fn subscriber_count(&self) -> (count: usize)
        requires
            self.well_formed(),
        ensures
            count == self.sub_ids().len(),
    {
        self.senders.len()
    }

    /// Law: the registry never holds two entries for the same subscription.
    pub proof fn lemma_subscriptions_distinct(&self)
        requires
            self.well_formed(),
        ensures
            all_distinct(self.sub_ids()),
    {
    }

    /// Law: a mutation pins the stored value down. When the mutation
    /// function's contract admits exactly one result for the value held
    /// before the call, the tracker holds exactly that result afterwards,
    /// and that is what `as_ref` then returns.
    pub proof fn lemma_modify_determines_value<F: FnOnce(&T) -> T>(
        pre: Self,
        post: Self,
        f: F,
        expected: T,
    )
        requires
            call_ensures(f, (&pre.current_value(),), post.current_value()),
            forall|r: T| call_ensures(f, (&pre.current_value(),), r) ==> r == expected,
        ensures
            post.current_value() == expected,
    {
    }
}

impl<T> ChangeTracker<T> where T: Clone {
    /// Create a tracker that takes ownership of `value`. The registry
    /// starts empty and no serial number has been issued yet.
    pub fn new(value: T) -> (tracker: Self)
        ensures
            tracker.well_formed(),
            tracker.current_value() == value,
            tracker.sub_ids() == Seq::<nat>::empty(),
            tracker.issued() == 0,
    {
        ChangeTracker {
            value,
            senders: Vec::new(),
            ids: Ghost(Seq::empty()),
            next_id: Ghost(0),
        }
    }

    /// Subscribe to changes: build a bounded channel of the given capacity,
    /// register its sending half, and hand the receiving half back. The new
    /// subscription gets the next serial number; nothing else changes, and
    /// in particular the subscription sees no mutation from before this
    /// call. The capacity bound is the channel primitive's own limit.
    pub fn get_changes(&mut self, capacity: usize) -> (notifications: Receiver<(T, T)>)
        requires
            old(self).well_formed(),
            capacity < usize::MAX / 4,
        ensures
            final(self).well_formed(),
            final(self).current_value() == old(self).current_value(),
            final(self).sub_ids() == old(self).sub_ids().push(old(self).issued()),
            final(self).issued() == old(self).issued() + 1,
    {
        let (sender, receiver) = change_channel::<T>(capacity);
        self.senders.push(sender);
        proof {
            self.ids@ = self.ids@.push(self.next_id@);
            self.next_id@ = self.next_id@ + 1;
        }
        receiver
    }

    /// Modify the value, notifying subscribers of the change.
    ///
    /// The new value is the result of applying `f` to the current value.
    /// Every subscriber is then offered the `(old value, new value)`
    /// snapshot pair by one non-blocking send: a subscriber whose queue is
    /// full keeps its registration but misses this one notification, and a
    /// subscriber whose receiver is gone is removed. The registry after the
    /// call is therefore the survivors of one keep-or-drop pass over the
    /// registry before it, in their old order; which entries survive is the
    /// channel's verdict, not chosen here. The mutation itself never fails.
    pub fn modify<F: FnOnce(&T) -> T>(&mut self, f: F)
        requires
            old(self).well_formed(),
            call_requires(f, (&old(self).current_value(),)),
        ensures
            final(self).well_formed(),
            call_ensures(f, (&old(self).current_value(),), final(self).current_value()),
            final(self).issued() == old(self).issued(),
            final(self).sub_ids().len() <= old(self).sub_ids().len(),
            exists|decisions: Seq<bool>|
                decisions.len() == old(self).sub_ids().len() && final(self).sub_ids()
                    == #[trigger] kept_entries(old(self).sub_ids(), decisions),
    {
        let old_snapshot = self.value.clone();
        let new_value = f(&self.value);
        self.value = new_value;
        let new_snapshot = self.value.clone();

        let mut pending: Vec<Sender<(T, T)>> = Vec::new();
        core::mem::swap(&mut pending, &mut self.senders);
        let ghost prior_ids: Seq<nat> = self.ids@;

        let mut kept: Vec<Sender<(T, T)>> = Vec::new();
        let ghost mut kept_ids: Seq<nat> = Seq::<nat>::empty();
        let ghost mut decisions: Seq<bool> = Seq::<bool>::empty();
        while pending.len() > 0
            invariant
                decisions.len() + pending.len() == prior_ids.len(),
                kept@.len() == kept_ids.len(),
                kept_ids == kept_entries(prior_ids.subrange(0, decisions.len() as int), decisions),
            decreases pending.len(),
        {
            let ghost idx: int = decisions.len() as int;
            let mut sender = pending.remove(0);
            let outcome = send_change(&mut sender, old_snapshot.clone(), new_snapshot.clone());
            let keep = retains_subscriber(&outcome);
            if keep {
                kept.push(sender);
            }
            proof {
                let prev_decisions = decisions;
                let prev_kept = kept_ids;
                decisions = prev_decisions.push(keep);
                if keep {
                    kept_ids = prev_kept.push(prior_ids[idx]);
                }
                let scanned = prior_ids.subrange(0, idx + 1);
                assert(scanned.drop_last() =~= prior_ids.subrange(0, idx));
                assert(decisions.drop_last() =~= prev_decisions);
                assert(scanned.last() == prior_ids[idx]);
                assert(kept_ids == kept_entries(scanned, decisions));
            }
        }
        self.senders = kept;
        proof {
            self.ids@ = kept_ids;
            assert(prior_ids.subrange(0, prior_ids.len() as int) =~= prior_ids);
            assert(self.ids@ == kept_entries(prior_ids, decisions));
            lemma_kept_entries_len(prior_ids, decisions);
            lemma_kept_entries_distinct(prior_ids, decisions);
            lemma_kept_entries_below(prior_ids, decisions, self.next_id@);
        }
    }
}


} // verus!
