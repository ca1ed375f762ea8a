//! The two ends of a bounded channel, each with a log of what was done with it.
//!
//! The log of an [`Outbox`] holds the calls made through [`Outbox::offer`], the log of an [`Inbox`]
//! those made through [`Inbox::try_take`], one entry for each call. What is received through the
//! end that [`Inbox::waiting`] lends is in no log.

use std::fmt;
use std::fmt::{Debug, Formatter};
use tokio::sync::mpsc;
use tokio::sync::mpsc::error::{TryRecvError, TrySendError};
use vstd::prelude::*;

use crate::outside::channel_ends;

verus! {

/// How the offer of a message to a channel ended.
#[derive(Debug, Clone, Copy, PartialEq, Eq, Structural)]
pub enum Outcome {
    /// The message is in the channel.
    Sent,
    /// The channel was full.
    Dropped,
    /// The receiver is gone.
    Closed,
}

/// The outcome that the channel's answer to an offer stands for.
pub open spec fn outcome_of<T>(result: Result<(), TrySendError<T>>) -> Outcome {
    match result {
        Ok(()) => Outcome::Sent,
        Err(TrySendError::Full(_)) => Outcome::Dropped,
        Err(TrySendError::Closed(_)) => Outcome::Closed,
    }
}

/// Reads the channel's answer to an offer.
pub fn outcome<T>(result: Result<(), TrySendError<T>>) -> (outcome: Outcome)
    ensures
        outcome == outcome_of(result),
{
    match result {
        Ok(()) => Outcome::Sent,
        Err(TrySendError::Full(_)) => Outcome::Dropped,
        Err(TrySendError::Closed(_)) => Outcome::Closed,
    }
}

/// The sending end of a channel.
#[verifier::reject_recursive_types(T)]
pub struct Outbox<T> {
    sender: mpsc::Sender<T>,
    offers: Ghost<Seq<(T, Outcome)>>,
}

/// The receiving end of a channel.
#[verifier::reject_recursive_types(T)]
pub struct Inbox<T> {
    receiver: mpsc::Receiver<T>,
    takes: Ghost<Seq<Result<T, TryRecvError>>>,
}

/// Calls [`mpsc::Sender::try_send`], once, and the log holds that call. A refused message comes back
/// in the error, unchanged; which of the results comes is up to the channel.
#[verifier::external_body]
fn try_send<T>(outbox: &mut Outbox<T>, message: T) -> (result: Result<(), TrySendError<T>>)
    ensures
        final(outbox).sender() == old(outbox).sender(),
        final(outbox).offers() == old(outbox).offers().push((message, outcome_of(result))),
        result matches Err(TrySendError::Full(refused)) ==> refused == message,
        result matches Err(TrySendError::Closed(refused)) ==> refused == message,
{
    outbox.sender.try_send(message)
}

/// Calls [`mpsc::Receiver::try_recv`], once, and the log holds that call. The receiver goes on
/// reading the same channel. Which message comes out, if any, is up to whoever sends. That messages
/// come out in the order in which they went in is left unsaid: what goes in is in the log of the
/// other end, which is somewhere else.
#[verifier::external_body]
fn try_recv<T>(inbox: &mut Inbox<T>) -> (result: Result<T, TryRecvError>)
    ensures
        final(inbox).receiver() == old(inbox).receiver(),
        final(inbox).takes() == old(inbox).takes().push(result),
{
    inbox.receiver.try_recv()
}

/// Makes a channel that buffers up to `capacity` messages.
pub fn open_channel<T>(capacity: usize) -> (ends: (Outbox<T>, Inbox<T>))
    requires
        0 < capacity <= usize::MAX / 8,
    ensures
        channel_ends(capacity, ends.0.sender(), ends.1.receiver()),
        ends.0.offers() == Seq::<(T, Outcome)>::empty(),
        ends.1.takes() == Seq::<Result<T, TryRecvError>>::empty(),
{
    let (sender, receiver) = mpsc::channel(capacity);
    (
        Outbox { sender, offers: Ghost(Seq::empty()) },
        Inbox { receiver, takes: Ghost(Seq::empty()) },
    )
}

impl<T> Outbox<T> {
    /// The end that tokio knows.
    pub closed spec fn sender(self) -> mpsc::Sender<T> {
        self.sender
    }

    /// What was offered to the channel, the first offer first, and how each offer ended.
    pub closed spec fn offers(self) -> Seq<(T, Outcome)> {
        self.offers@
    }

    /// Offers `message` to the channel, once, without waiting for room in it.
    pub fn offer(&mut self, message: T) -> (ended: Outcome)
        ensures
            final(self).sender() == old(self).sender(),
            final(self).offers() == old(self).offers().push((message, ended)),
    {
        let result = try_send(self, message);
        outcome(result)
    }
}

impl<T> Inbox<T> {
    /// The end that tokio knows.
    pub closed spec fn receiver(self) -> mpsc::Receiver<T> {
        self.receiver
    }

    /// What [`Inbox::try_take`] gave so far, the first result first.
    pub closed spec fn takes(self) -> Seq<Result<T, TryRecvError>> {
        self.takes@
    }

    /// Takes the next message out of the channel, if one is there.
    pub fn try_take(&mut self) -> (result: Result<T, TryRecvError>)
        ensures
            final(self).receiver() == old(self).receiver(),
            final(self).takes() == old(self).takes().push(result),
    {
        try_recv(self)
    }

    /// Lends tokio's end, for those who wait for a message.
    pub fn waiting(&mut self) -> (receiver: &mut mpsc::Receiver<T>)
        ensures
            *receiver == old(self).receiver(),
            final(self).receiver() == *final(receiver),
            final(self).takes() == old(self).takes(),
    {
        &mut self.receiver
    }
}

impl<T> Debug for Inbox<T> {
    /// Shows what [`Debug`] shows of tokio's end; nothing is claimed of the text.
    #[verifier::external_body]
    fn fmt(&self, f: &mut Formatter<'_>) -> fmt::Result {
        self.receiver.fmt(f)
    }
}

} // verus!
