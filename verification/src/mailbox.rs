//! Trusted boundary to the crossbeam-channel mailboxes.
//!
//! The pipeline's threads talk through bounded multiple-producer,
//! single-consumer channels. The channel values themselves are shared with
//! racing threads, so nothing deterministic can be promised about whether
//! a non-blocking send lands; the verified code around these wrappers
//! states what holds of every outcome instead.

use vstd::prelude::*;

use crate::statistics::Bitrates;

verus! {

#[verifier::external_type_specification]
#[verifier::external_body]
#[verifier::reject_recursive_types(T)]
pub struct ExSender<T>(crossbeam_channel::Sender<T>);

#[verifier::external_type_specification]
#[verifier::external_body]
#[verifier::reject_recursive_types(T)]
pub struct ExReceiver<T>(crossbeam_channel::Receiver<T>);

/// Outcome of a non-blocking send into a mailbox.
#[derive(PartialEq, Eq, Structural)]
pub enum SendAttempt {
    Sent,
    Full,
    Disconnected,
}

/// Relies on crossbeam_channel::bounded: returns a connected
/// sender/receiver pair over a buffer of the given capacity.
#[verifier::external_body]
pub(crate) fn bounded_string_channel(cap: usize) -> (crossbeam_channel::Sender<String>, crossbeam_channel::Receiver<
    String,
>) {
    crossbeam_channel::bounded(cap)
}

/// Relies on crossbeam_channel::Sender::is_full. Whether the mailbox was
/// full at some moment during the call; a racing consumer may free a slot
/// at any time, so nothing is promised of the result.
#[verifier::external_body]
pub(crate) fn string_sender_is_full(tx: &crossbeam_channel::Sender<String>) -> bool {
    tx.is_full()
}

/// Relies on crossbeam_channel::Sender::try_send: never blocks; either the
/// message is placed in the mailbox (`Sent`), or it is dropped because the
/// mailbox was full (`Full`) or because the consumer is gone
/// (`Disconnected`). Which outcome comes back depends on the racing
/// consumer, so nothing is promised of it.
#[verifier::external_body]
pub(crate) fn try_send_string(tx: &crossbeam_channel::Sender<String>, message: String) -> SendAttempt {
    match tx.try_send(message) {
        Ok(()) => SendAttempt::Sent,
        Err(crossbeam_channel::TrySendError::Full(_)) => SendAttempt::Full,
        Err(crossbeam_channel::TrySendError::Disconnected(_)) => SendAttempt::Disconnected,
    }
}

/// Relies on crossbeam_channel::Sender::try_send: hands the snapshot to
/// the waiting query caller without blocking. If the caller has gone away
/// or its one-shot mailbox is full, the snapshot is discarded, which the
/// query protocol allows: an abandoned continuation is safely droppable.
#[verifier::external_body]
pub(crate) fn deliver_bitrates(tx: &crossbeam_channel::Sender<Bitrates>, bitrates: Bitrates) {
    let _ = tx.try_send(bitrates);
}

/// Relies on crossbeam_channel::Sender::try_send, as `deliver_bitrates`
/// does, for the text-snapshot query.
#[verifier::external_body]
pub(crate) fn deliver_string(tx: &crossbeam_channel::Sender<String>, text: String) {
    let _ = tx.try_send(text);
}

} // verus!
