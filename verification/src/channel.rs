//! Trusted boundary to the outbound delivery channels.
//!
//! Each subscriber owns one unbounded queue: the registry holds the producer
//! half, the subscriber's streaming task the consumer half. Whether a send
//! succeeds depends on whether that peer still holds its half, so the items
//! here promise nothing of a send's outcome; the registry states what holds
//! of its own state whichever way the send went.

use vstd::prelude::*;

use crate::event::Event;

verus! {

#[verifier::external_type_specification]
#[verifier::external_body]
#[verifier::reject_recursive_types(T)]
pub struct ExUnboundedSender<T>(tokio::sync::mpsc::UnboundedSender<T>);

#[verifier::external_type_specification]
#[verifier::external_body]
#[verifier::reject_recursive_types(T)]
pub struct ExUnboundedReceiver<T>(tokio::sync::mpsc::UnboundedReceiver<T>);

/// Relies on tokio::sync::mpsc::unbounded_channel: returns the producer and
/// consumer halves of a fresh unbounded queue.
#[verifier::external_body]
pub(crate) fn new_channel() -> (r: (
    tokio::sync::mpsc::UnboundedSender<Event>,
    tokio::sync::mpsc::UnboundedReceiver<Event>,
)) {
    tokio::sync::mpsc::unbounded_channel()
}

/// Relies on tokio::sync::mpsc::UnboundedSender::send: enqueues the value
/// without blocking and returns `Ok` unless the consumer half has been closed
/// or dropped. Which of the two holds depends on the peer, so nothing is
/// promised of the outcome.
#[verifier::external_body]
pub(crate) fn send_event(
    tx: &tokio::sync::mpsc::UnboundedSender<Event>,
    ev: Event,
) -> (ok: bool) {
    tx.send(ev).is_ok()
}

} // verus!
