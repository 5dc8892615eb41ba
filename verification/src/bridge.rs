//! The event bridge: an unbounded first-in first-out channel that carries discovery
//! messages from the worker to the ingest task.

use vstd::prelude::*;

verus! {

/// The sending end of a channel of the `smol` crate. Nothing is known of what it
/// holds: the other end belongs to another task.
#[verifier::external_type_specification]
#[verifier::external_body]
#[verifier::reject_recursive_types(T)]
pub struct ExSender<T>(smol::channel::Sender<T>);

/// The receiving end of a channel of the `smol` crate, as opaque as the sending end.
#[verifier::external_type_specification]
#[verifier::external_body]
#[verifier::reject_recursive_types(T)]
pub struct ExReceiver<T>(smol::channel::Receiver<T>);

/// What `Receiver::recv` of the `smol` crate yields in place of a message once the
/// channel is closed and empty. It holds nothing.
#[verifier::external_type_specification]
#[verifier::external_body]
pub struct ExRecvError(smol::channel::RecvError);

/// The limit on pending messages that a channel was made with, as its sending end
/// tells it with `Sender::capacity`: `None` where the channel has no limit.
pub uninterp spec fn capacity(sender: smol::channel::Sender<String>) -> Option<nat>;

/// Calls `smol::channel::unbounded`, which makes a new channel without a limit on
/// the messages it holds and returns its two ends.
#[verifier::external_body]
pub(crate) fn unbounded() -> (ends: (
    smol::channel::Sender<String>,
    smol::channel::Receiver<String>,
))
    ensures
        capacity(ends.0) is None,
{
    smol::channel::unbounded()
}

/// Calls `Sender::send` and waits for it with `smol::block_on`. On a channel without
/// a limit the send never waits for room, so the call returns: the channel has
/// taken the message, or it is closed and hands the very same message back. Which
/// of the two happens depends on the receiving end, so nothing is said of it.
#[verifier::external_body]
pub(crate) fn send(sender: &smol::channel::Sender<String>, message: String) -> (outcome: Result<
    (),
    String,
>)
    requires
        capacity(*sender) is None,
    ensures
        outcome matches Err(returned) ==> returned@ == message@,
{
    match smol::block_on(sender.send(message)) {
        Ok(()) => Ok(()),
        Err(smol::channel::SendError(returned)) => Err(returned),
    }
}

} // verus!
