//! Trusted declarations for the delivery channels the core consumes.
//!
//! Each input stream and each packetization stream is fed over a
//! single-producer/single-consumer channel owned by an outside producer. What
//! a channel will yield depends on that producer and on timing, so nothing is
//! promised of the received values: every caller states what holds of its
//! result whatever came back.

use vstd::prelude::*;

verus! {

#[verifier::external_type_specification]
#[verifier::external_body]
#[verifier::reject_recursive_types(T)]
pub struct ExReceiver<T>(crossbeam_channel::Receiver<T>);

/// Relies on `crossbeam_channel::Receiver::try_iter`: a non-blocking iterator
/// that yields the messages currently buffered in the channel, in send order,
/// and stops (without blocking) once the channel is empty or disconnected.
#[verifier::external_body]
pub(crate) fn try_drain<T>(r: &crossbeam_channel::Receiver<T>) -> Vec<T> {
    r.try_iter().collect()
}

/// Relies on `crossbeam_channel::Receiver::recv`: blocks until a message is
/// available (returned as `Some`) or the channel is empty and disconnected
/// (`None`).
#[verifier::external_body]
pub(crate) fn recv<T>(r: &crossbeam_channel::Receiver<T>) -> Option<T> {
    r.recv().ok()
}

} // verus!
