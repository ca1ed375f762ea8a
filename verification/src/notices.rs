//! The channel through which consumers tell the bus that they are gone, with a log of what was
//! done with each sending end.
//!
//! The log of a [`NoticeSender`] holds the calls made through [`NoticeSender::notify`] and
//! [`NoticeSender::share`], one entry for each call.

use std::any::TypeId;
use std::fmt;
use std::fmt::{Debug, Formatter};
use tokio::sync::mpsc;
use tokio::sync::mpsc::error::SendError;
use vstd::prelude::*;

use crate::registry::ConsumerId;

verus! {

/// The consumer of a topic is gone.
pub type Notice = (TypeId, ConsumerId);

/// The two ends of the channel of notices that the bus holds.
pub type DropChannel = (NoticeSender, mpsc::UnboundedReceiver<Notice>);

/// What can be done with a sending end.
pub enum NoticeUse {
    /// A notice was sent.
    Sent(Notice),
    /// Another sending end was made.
    Shared,
}

/// A sending end of a channel of notices.
pub struct NoticeSender {
    sender: mpsc::UnboundedSender<Notice>,
    uses: Ghost<Seq<NoticeUse>>,
}

/// Calls [`mpsc::unbounded_channel`]: nothing is claimed of the two ends but that this call made
/// them.
#[verifier::external_body]
fn unbounded() -> (ends: (mpsc::UnboundedSender<Notice>, mpsc::UnboundedReceiver<Notice>)) {
    mpsc::unbounded_channel()
}

/// Calls [`mpsc::UnboundedSender::send`], once, and the log holds that call. A refused notice comes
/// back in the error, unchanged; a notice is refused when the receiver is gone, which is left to the
/// channel. Nothing in tokio's code unwinds here; the waker of whoever waits for a notice is taken
/// not to unwind either.
#[verifier::external_body]
fn send(end: &mut NoticeSender, notice: Notice) -> (result: Result<(), SendError<Notice>>)
    ensures
        final(end).sender() == old(end).sender(),
        final(end).uses() == old(end).uses().push(NoticeUse::Sent(notice)),
        result matches Err(SendError(refused)) ==> refused == notice,
    opens_invariants none
    no_unwind
{
    end.sender.send(notice)
}

/// Calls [`mpsc::UnboundedSender::clone`], once, and the log holds that call. The clone sends into
/// the same channel.
#[verifier::external_body]
fn another(end: &mut NoticeSender) -> (same: mpsc::UnboundedSender<Notice>)
    ensures
        final(end).sender() == old(end).sender(),
        final(end).uses() == old(end).uses().push(NoticeUse::Shared),
        same == old(end).sender(),
{
    end.sender.clone()
}

/// `sender` and `receiver` are two ends that [`mpsc::unbounded_channel`] can make.
pub closed spec fn notice_ends(
    sender: mpsc::UnboundedSender<Notice>,
    receiver: mpsc::UnboundedReceiver<Notice>,
) -> bool {
    call_ensures(unbounded, (), (sender, receiver))
}

/// Makes a channel of notices.
pub fn open_notices() -> (channel: DropChannel)
    ensures
        notice_ends(channel.0.sender(), channel.1),
        channel.0.uses() == Seq::<NoticeUse>::empty(),
{
    let (sender, receiver) = unbounded();
    assert(notice_ends(sender, receiver));
    (NoticeSender { sender, uses: Ghost(Seq::empty()) }, receiver)
}

impl NoticeSender {
    /// The end that tokio knows.
    pub closed spec fn sender(self) -> mpsc::UnboundedSender<Notice> {
        self.sender
    }

    /// What was done with this end, the first thing first.
    pub closed spec fn uses(self) -> Seq<NoticeUse> {
        self.uses@
    }

    /// Sends `notice`, once. Where the receiver is gone, nobody needs to hear of it.
    pub fn notify(&mut self, notice: Notice)
        ensures
            final(self).sender() == old(self).sender(),
            final(self).uses() == old(self).uses().push(NoticeUse::Sent(notice)),
        opens_invariants none
        no_unwind
    {
        let _ = send(self, notice);
    }

    /// Makes another sending end of the same channel.
    pub fn share(&mut self) -> (shared: NoticeSender)
        ensures
            final(self).sender() == old(self).sender(),
            final(self).uses() == old(self).uses().push(NoticeUse::Shared),
            shared.sender() == old(self).sender(),
            shared.uses() == Seq::<NoticeUse>::empty(),
    {
        NoticeSender { sender: another(self), uses: Ghost(Seq::empty()) }
    }
}

impl Debug for NoticeSender {
    /// Shows what [`Debug`] shows of tokio's end; nothing is claimed of the text.
    #[verifier::external_body]
    fn fmt(&self, f: &mut Formatter<'_>) -> fmt::Result {
        self.sender.fmt(f)
    }
}

} // verus!
