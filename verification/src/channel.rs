//! The bounded channel that carries change notifications.
//!
//! The channel primitive itself is an outside collaborator: this module
//! declares its endpoint types and wraps the two calls the tracker makes,
//! a constructor and a non-blocking send. What the tracker does with a
//! send's outcome is ordinary verified code ([`retains_subscriber`]).

use vstd::prelude::*;

use futures::channel::mpsc::Receiver;
use futures::channel::mpsc::Sender;

verus! {

#[verifier::external_type_specification]
#[verifier::external_body]
#[verifier::reject_recursive_types(T)]
pub struct ExSender<T>(Sender<T>);

#[verifier::external_type_specification]
#[verifier::external_body]
#[verifier::reject_recursive_types(T)]
pub struct ExReceiver<T>(Receiver<T>);

/// Outcome of one non-blocking delivery attempt to one subscriber.
#[derive(Clone, Copy, Debug, PartialEq, Eq, Structural)]
pub enum SendOutcome {
    /// The notification was queued for the subscriber.
    Accepted,
    /// The subscriber's queue was full; the notification is dropped.
    Full,
    /// The subscriber discarded its receiving end; the entry is dead.
    Disconnected,
}

/// Relies on `futures::channel::mpsc::channel`: it returns the sending and
/// receiving endpoints of a fresh bounded channel, and panics only when the
/// requested buffer reaches a quarter of `usize::MAX`, which the
/// precondition rules out.
#[verifier::external_body]
pub(crate) fn change_channel<T>(capacity: usize) -> (endpoints: (
    Sender<(T, T)>,
    Receiver<(T, T)>,
))
    requires
        capacity < usize::MAX / 4,
{
    futures::channel::mpsc::channel(capacity)
}

/// Relies on `futures::channel::mpsc::Sender::start_send`: a non-blocking
/// enqueue that either accepts the message or reports, without blocking,
/// that the queue is full or that the receiver is gone. Nothing is assumed
/// of the outcome: the queue's state is shared with the subscriber and is
/// not visible here. Its internal guard against a queue of half
/// `usize::MAX` messages cannot fire, since that many messages cannot be
/// held in memory.
#[verifier::external_body]
pub(crate) fn send_change<T>(
    sender: &mut Sender<(T, T)>,
    old_value: T,
    new_value: T,
) -> (outcome: SendOutcome) {
    match sender.start_send((old_value, new_value)) {
        Ok(()) => SendOutcome::Accepted,
        Err(e) => {
            if e.is_disconnected() {
                SendOutcome::Disconnected
            } else {
                SendOutcome::Full
            }
        },
    }
}

/// Whether a subscriber stays registered after a delivery attempt with this
/// outcome.
pub open spec fn outcome_retains(outcome: SendOutcome) -> bool {
    !(outcome is Disconnected)
}

/// The broadcast failure policy: a subscriber stays in the registry unless
/// its receiver is gone. Backpressure (a full queue) only drops the one
/// notification; it never unregisters the subscriber.
pub fn retains_subscriber(outcome: &SendOutcome) -> (keep: bool)
    ensures
        keep == outcome_retains(*outcome),
{
    match outcome {
        SendOutcome::Accepted => true,
        SendOutcome::Full => true,
        SendOutcome::Disconnected => false,
    }
}

} // verus!
