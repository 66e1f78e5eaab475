//! Queues that hand values from one part of a process to another.
//!
//! The queues are tokio's multi-producer channels. What they hold depends on
//! what the other end does in the meantime, so nothing is claimed about
//! whether a hand-off succeeds: only that a value that could not be handed
//! over comes back unchanged.

use tokio::sync::mpsc::error::{TryRecvError, TrySendError};
use tokio::sync::mpsc::{Receiver, Sender, UnboundedReceiver, UnboundedSender};
use vstd::prelude::*;

verus! {

/// The sending end of tokio's bounded channel.
#[verifier::external_type_specification]
#[verifier::external_body]
#[verifier::reject_recursive_types(T)]
pub struct ExSender<T>(tokio::sync::mpsc::Sender<T>);

/// The receiving end of tokio's bounded channel.
#[verifier::external_type_specification]
#[verifier::external_body]
#[verifier::reject_recursive_types(T)]
pub struct ExReceiver<T>(tokio::sync::mpsc::Receiver<T>);

/// The sending end of tokio's unbounded channel.
#[verifier::external_type_specification]
#[verifier::external_body]
#[verifier::reject_recursive_types(T)]
pub struct ExUnboundedSender<T>(tokio::sync::mpsc::UnboundedSender<T>);

/// The receiving end of tokio's unbounded channel.
#[verifier::external_type_specification]
#[verifier::external_body]
#[verifier::reject_recursive_types(T)]
pub struct ExUnboundedReceiver<T>(tokio::sync::mpsc::UnboundedReceiver<T>);

/// Why a value could not be put into a queue.
#[derive(Debug, Clone, Copy, PartialEq, Eq, Structural)]
pub enum SendFailure {
    /// The queue holds as many values as it was made for.
    Full,
    /// The receiving end is gone.
    Closed,
}

/// Why no value could be taken from a queue.
#[derive(Debug, Clone, Copy, PartialEq, Eq, Structural)]
pub enum ReceiveFailure {
    /// Nothing is waiting, though senders remain.
    Empty,
    /// Nothing is waiting and no sender remains.
    Disconnected,
}

/// Calls `tokio::sync::mpsc::channel`, which makes a queue for at most
/// `capacity` values. The call panics on a capacity of zero and on one above
/// an eighth of the address space, so neither is admitted.
#[verifier::external_body]
pub(crate) fn bounded_queue<T>(capacity: usize) -> (ends: (Sender<T>, Receiver<T>))
    requires
        0 < capacity <= usize::MAX / 8,
{
    tokio::sync::mpsc::channel(capacity)
}

/// Calls `tokio::sync::mpsc::unbounded_channel`.
#[verifier::external_body]
pub(crate) fn unbounded_queue<T>() -> (ends: (UnboundedSender<T>, UnboundedReceiver<T>)) {
    tokio::sync::mpsc::unbounded_channel()
}

/// Calls `Sender::try_send`, which never waits. When the queue is full or
/// closed the value is handed back as it was given.
#[verifier::external_body]
pub(crate) fn try_send<T>(sender: &Sender<T>, value: T) -> (outcome: Result<(), (SendFailure, T)>)
    ensures
        outcome matches Err(refused) ==> refused.1 == value,
{
    match sender.try_send(value) {
        Ok(()) => Ok(()),
        Err(TrySendError::Full(back)) => Err((SendFailure::Full, back)),
        Err(TrySendError::Closed(back)) => Err((SendFailure::Closed, back)),
    }
}

/// Calls `UnboundedSender::send`, which never waits. When the receiving end
/// is gone the value is handed back as it was given.
#[verifier::external_body]
pub(crate) fn send<T>(sender: &UnboundedSender<T>, value: T) -> (outcome: Result<(), T>)
    ensures
        outcome matches Err(back) ==> back == value,
{
    match sender.send(value) {
        Ok(()) => Ok(()),
        Err(refused) => Err(refused.0),
    }
}

/// Calls `UnboundedSender::clone`, which gives another handle on the same
/// queue. A handle holds a reference to the queue that it shares with the
/// other handles and nothing else, and the copy holds the same reference,
/// so the copy is the same value as the handle it was made of.
#[verifier::external_body]
pub(crate) fn another_sender<T>(sender: &UnboundedSender<T>) -> (copy: UnboundedSender<T>)
    ensures
        copy == *sender,
{
    sender.clone()
}

/// Calls `UnboundedReceiver::try_recv`, which never waits.
#[verifier::external_body]
pub(crate) fn try_receive<T>(receiver: &mut UnboundedReceiver<T>) -> (outcome: Result<
    T,
    ReceiveFailure,
>) {
    match receiver.try_recv() {
        Ok(value) => Ok(value),
        Err(TryRecvError::Empty) => Err(ReceiveFailure::Empty),
        Err(TryRecvError::Disconnected) => Err(ReceiveFailure::Disconnected),
    }
}

} // verus!
