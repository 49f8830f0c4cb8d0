//! The parts of `crossbeam::channel` that the node's logic calls.

use vstd::prelude::*;

verus! {

/// Declares `crossbeam::channel::Sender`, the sending half of a channel.
#[verifier::external_type_specification]
#[verifier::external_body]
#[verifier::reject_recursive_types(T)]
pub struct ExSender<T>(crossbeam::channel::Sender<T>);

/// Declares `crossbeam::channel::TrySendError`, which hands back a message
/// that could not be sent.
#[verifier::external_type_specification]
#[verifier::external_body]
#[verifier::reject_recursive_types(T)]
pub struct ExTrySendError<T>(crossbeam::channel::TrySendError<T>);

/// Attempts to send `msg` without blocking, through
/// `crossbeam::channel::Sender::try_send`. Whether it succeeds depends on the
/// state of the channel, so nothing is claimed of the result.
#[verifier::external_body]
pub(crate) fn try_send<T>(sender: &crossbeam::channel::Sender<T>, msg: T) -> (res: Result<
    (),
    crossbeam::channel::TrySendError<T>,
>) {
    sender.try_send(msg)
}

/// Clones a sender through `Clone::clone` on `crossbeam::channel::Sender`.
///
/// Claims: the clone equals the sender it was made from; the source shows
/// that a clone is a new handle on the same channel object, with the same
/// flavor.
#[verifier::external_body]
pub(crate) fn clone_sender<T>(sender: &crossbeam::channel::Sender<T>) -> (res:
    crossbeam::channel::Sender<T>)
    ensures
        res == *sender,
{
    sender.clone()
}

} // verus!
