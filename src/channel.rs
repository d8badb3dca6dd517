use crate::event::OutboundEvent;
use tokio::sync::mpsc::{Receiver, Sender};
use vstd::prelude::*;

verus! {

#[verifier::external_type_specification]
#[verifier::external_body]
#[verifier::reject_recursive_types(T)]
pub struct ExSender<T>(Sender<T>);

#[verifier::external_type_specification]
#[verifier::external_body]
#[verifier::reject_recursive_types(T)]
pub struct ExReceiver<T>(Receiver<T>);

/// Relies on tokio::sync::mpsc::channel: opens a bounded channel and returns
/// its two ends; it panics on a capacity of zero or above its semaphore limit.
#[verifier::external_body]
pub(crate) fn bounded_channel(capacity: usize) -> (Sender<OutboundEvent>, Receiver<OutboundEvent>)
    requires
        0 < capacity,
        capacity * 8 <= usize::MAX,
{
    tokio::sync::mpsc::channel(capacity)
}

/// Relies on tokio::sync::mpsc::Sender::try_send: queues the event without
/// waiting and reports whether it was queued; it fails when the queue is full
/// or the receiving end is gone.
#[verifier::external_body]
pub(crate) fn try_deliver(tx: &Sender<OutboundEvent>, event: OutboundEvent) -> (queued: bool) {
    tx.try_send(event).is_ok()
}

} // verus!
