//! The types of tokio, tokio-util and std that the bus is built on, and what it relies on of their
//! functions.
//!
//! What a call to another crate can return is described by `call_ensures` of the called function:
//! "for these arguments this is a possible result". A call gives that fact of its own result, and
//! nothing else does where no contract names the result. The relations below name those facts.
//!
//! The calls that act on a channel or on a task stand in [`crate::channel`], [`crate::notices`] and
//! [`crate::task`]. Each of them adds one entry to a log.

use std::any::TypeId;
use std::sync::Arc;
use tokio::sync::mpsc::error::{SendError, TryRecvError, TrySendError};
use tokio::sync::{mpsc, oneshot};
use tokio::task::JoinHandle;
use tokio_util::sync::CancellationToken;
use vstd::prelude::*;

verus! {

/// [`std::any::TypeId`], opaque.
#[verifier::external_type_specification]
#[verifier::external_body]
pub struct ExTypeId(TypeId);

/// [`std::fmt::Formatter`], opaque.
#[verifier::external_type_specification]
#[verifier::external_body]
pub struct ExFormatter<'a>(std::fmt::Formatter<'a>);

/// [`std::fmt::Error`], opaque.
#[verifier::external_type_specification]
#[verifier::external_body]
pub struct ExFmtError(std::fmt::Error);

/// [`tokio::sync::mpsc::Sender`], opaque: a value stands for the channel that it sends into.
#[verifier::external_type_specification]
#[verifier::external_body]
#[verifier::reject_recursive_types(T)]
pub struct ExSender<T>(mpsc::Sender<T>);

/// [`tokio::sync::mpsc::Receiver`], opaque: a value stands for the channel that it reads.
#[verifier::external_type_specification]
#[verifier::external_body]
#[verifier::reject_recursive_types(T)]
pub struct ExReceiver<T>(mpsc::Receiver<T>);

/// [`tokio::sync::mpsc::UnboundedSender`], opaque: a value stands for the channel that it sends
/// into.
#[verifier::external_type_specification]
#[verifier::external_body]
#[verifier::reject_recursive_types(T)]
pub struct ExUnboundedSender<T>(mpsc::UnboundedSender<T>);

/// [`tokio::sync::mpsc::UnboundedReceiver`], opaque: a value stands for the channel that it reads.
#[verifier::external_type_specification]
#[verifier::external_body]
#[verifier::reject_recursive_types(T)]
pub struct ExUnboundedReceiver<T>(mpsc::UnboundedReceiver<T>);

/// [`tokio::sync::oneshot::Sender`], opaque.
#[verifier::external_type_specification]
#[verifier::external_body]
#[verifier::reject_recursive_types(T)]
pub struct ExReplySender<T>(oneshot::Sender<T>);

/// [`tokio::sync::oneshot::Receiver`], opaque.
#[verifier::external_type_specification]
#[verifier::external_body]
#[verifier::reject_recursive_types(T)]
pub struct ExReplyReceiver<T>(oneshot::Receiver<T>);

/// [`tokio::sync::oneshot::error::RecvError`], opaque: [`oneshot::Receiver`] is a future, and this is
/// the error of its output.
#[verifier::external_type_specification]
#[verifier::external_body]
pub struct ExReplyError(oneshot::error::RecvError);

/// [`tokio::task::JoinHandle`], opaque.
#[verifier::external_type_specification]
#[verifier::external_body]
#[verifier::reject_recursive_types(T)]
pub struct ExJoinHandle<T>(JoinHandle<T>);

/// [`tokio::task::JoinError`], opaque: [`JoinHandle`] is a future, and this is the error of its
/// output.
#[verifier::external_type_specification]
#[verifier::external_body]
pub struct ExJoinError(tokio::task::JoinError);

/// [`tokio_util::sync::CancellationToken`], opaque: a value stands for the cancellation that it
/// requests and observes.
#[verifier::external_type_specification]
#[verifier::external_body]
pub struct ExCancellationToken(CancellationToken);

/// [`tokio::sync::mpsc::error::SendError`], with its public field.
#[verifier::external_type_specification]
pub struct ExSendError<T>(SendError<T>);

/// [`tokio::sync::mpsc::error::TrySendError`], with its public variants.
#[verifier::external_type_specification]
pub struct ExTrySendError<T>(TrySendError<T>);

/// [`tokio::sync::mpsc::error::TryRecvError`], with its public variants.
#[verifier::external_type_specification]
pub struct ExTryRecvError(TryRecvError);

/// [`TypeId::of`]: known to the verifier, with nothing claimed of its result.
pub assume_specification<T: ?Sized + 'static>[ TypeId::of::<T> ]() -> (id: TypeId)
;

/// The id of the type `T`: the one result that [`TypeId::of`] has for it.
pub open spec fn type_id_of<T: ?Sized + 'static>() -> TypeId {
    choose|id: TypeId| call_ensures(TypeId::of::<T>, (), id)
}

/// Calls [`TypeId::of`]. The contract claims that a type has one id, the same at every call.
#[verifier::external_body]
pub(crate) fn type_id<T: ?Sized + 'static>() -> (id: TypeId)
    ensures
        id == type_id_of::<T>(),
{
    TypeId::of::<T>()
}

/// `==` on [`TypeId`]: two ids compare equal exactly when they are the same id.
pub assume_specification[ <TypeId as PartialEq>::eq ](id: &TypeId, other: &TypeId) -> (same: bool)
    ensures
        same == (*id == *other),
;

/// Calls [`Arc::clone`]: the clone points to the same value.
#[verifier::external_body]
pub(crate) fn share_arc<T>(pointer: &Arc<T>) -> (same: Arc<T>)
    ensures
        same == *pointer,
{
    Arc::clone(pointer)
}

/// [`tokio::sync::mpsc::channel`]. It panics on a buffer of no message and on one beyond
/// `Semaphore::MAX_PERMITS`, an eighth of [`usize::MAX`]; nothing is claimed of the two ends but
/// that this call made them.
pub assume_specification<T>[ mpsc::channel::<T> ](buffer: usize) -> (ends: (
    mpsc::Sender<T>,
    mpsc::Receiver<T>,
))
    requires
        0 < buffer <= usize::MAX / 8,
;

/// [`mpsc::Sender::clone`]: the clone sends into the same channel.
pub assume_specification<T>[ <mpsc::Sender<T> as Clone>::clone ](
    sender: &mpsc::Sender<T>,
) -> (clone: mpsc::Sender<T>)
    ensures
        clone == *sender,
;

/// [`oneshot::channel`]: nothing is claimed of the two ends but that this call made them.
pub assume_specification<T>[ oneshot::channel::<T> ]() -> (ends: (
    oneshot::Sender<T>,
    oneshot::Receiver<T>,
))
;

/// [`oneshot::Sender::send`]. A refused value comes back, unchanged.
pub assume_specification<T>[ oneshot::Sender::<T>::send ](
    sender: oneshot::Sender<T>,
    value: T,
) -> (result: Result<(), T>)
    ensures
        result matches Err(refused) ==> refused == value,
;

/// [`CancellationToken::new`]: nothing is claimed of the token but that this call made it.
pub assume_specification[ CancellationToken::new ]() -> (token: CancellationToken)
;

/// [`CancellationToken::clone`]: the clone is cancelled whenever the token is, and the other way
/// round.
pub assume_specification[ <CancellationToken as Clone>::clone ](
    token: &CancellationToken,
) -> (clone: CancellationToken)
    ensures
        clone == *token,
;

/// `sender` and `receiver` are the two ends of a channel that buffers up to `buffer` messages.
pub open spec fn channel_ends<T>(
    buffer: usize,
    sender: mpsc::Sender<T>,
    receiver: mpsc::Receiver<T>,
) -> bool {
    call_ensures(mpsc::channel::<T>, (buffer,), (sender, receiver))
}

/// `sender` and `receiver` are the two ends of a channel for one reply.
pub open spec fn reply_ends<T>(sender: oneshot::Sender<T>, receiver: oneshot::Receiver<T>) -> bool {
    call_ensures(oneshot::channel::<T>, (), (sender, receiver))
}

/// The answer `value` through `sender` can end with `result`. A sender is used up by answering, so
/// that there is one answer at most.
pub open spec fn replied<T>(sender: oneshot::Sender<T>, value: T, result: Result<(), T>) -> bool {
    call_ensures(oneshot::Sender::<T>::send, (sender, value), result)
}

} // verus!
