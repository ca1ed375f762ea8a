//! What every actor has and does, whatever its messages are.

use tokio::sync::mpsc;
use tokio::sync::mpsc::error::SendError;
use tokio::task::JoinHandle;
use tokio_util::sync::CancellationToken;
use vstd::prelude::*;

use crate::outside::channel_ends;
use crate::task::{Task, TaskRequest};

verus! {

/// The most messages that wait for an actor.
pub const MAILBOX_CAPACITY: usize = 1000;

/// An address to send messages to an actor.
#[verifier::reject_recursive_types(M)]
pub struct Addr<M> {
    /// Sends into the actor's mailbox.
    pub sender: mpsc::Sender<M>,
}

/// The message that could not be sent to an actor because the actor is gone.
pub struct AddrError<M>(pub SendError<M>);

impl<M> AddrError<M> {
    /// What went wrong, in words.
    pub fn describe(&self) -> (text: &'static str)
        ensures
            text@ == "Failed to send message to actor"@,
    {
        "Failed to send message to actor"
    }
}

impl<M> Clone for Addr<M> {
    /// Another address of the same actor.
    fn clone(&self) -> (same: Self)
        ensures
            same == *self,
    {
        Addr { sender: self.sender.clone() }
    }
}

impl<M> Addr<M> {
    /// The address of the actor whose mailbox `sender` sends into.
    pub fn new(sender: mpsc::Sender<M>) -> (addr: Self)
        ensures
            addr.sender == sender,
    {
        Addr { sender }
    }

    /// What the sender of a message learns from what the mailbox answered.
    pub fn send_result(result: Result<(), SendError<M>>) -> (sent: Result<(), AddrError<M>>)
        ensures
            sent == match result {
                Ok(()) => Ok::<(), AddrError<M>>(()),
                Err(error) => Err::<(), AddrError<M>>(AddrError(error)),
            },
    {
        match result {
            Ok(()) => Ok(()),
            Err(error) => Err(AddrError(error)),
        }
    }
}

/// What an actor is started with, and what its starter keeps.
#[verifier::reject_recursive_types(M)]
pub struct Mailbox<M> {
    /// Where messages to the actor go.
    pub addr: Addr<M>,
    /// Where the actor reads its messages.
    pub receiver: mpsc::Receiver<M>,
    /// Asks the actor to shut down.
    pub cancellation_token: CancellationToken,
    /// Tells the actor that it was asked to shut down.
    pub actors_cancel_token: CancellationToken,
}

impl<M> Mailbox<M> {
    /// A mailbox for an actor that is about to start.
    pub fn new() -> (mailbox: Self)
        ensures
            channel_ends(MAILBOX_CAPACITY, mailbox.addr.sender, mailbox.receiver),
            call_ensures(CancellationToken::new, (), mailbox.cancellation_token),
            mailbox.actors_cancel_token == mailbox.cancellation_token,
    {
        let (sender, receiver) = mpsc::channel(MAILBOX_CAPACITY);
        let cancellation_token = CancellationToken::new();
        let actors_cancel_token = cancellation_token.clone();
        Mailbox { addr: Addr::new(sender), receiver, cancellation_token, actors_cancel_token }
    }
}

/// A handle to an actor that can be used to gracefully shutdown the actor or abort it.
pub struct ActorHandle {
    /// The task that the actor runs in.
    pub task: Task,
}

impl ActorHandle {
    /// The handle to the actor that runs in the task of `task_handle` and shuts down when
    /// `cancellation_token` is cancelled.
    pub fn new(task_handle: JoinHandle<()>, cancellation_token: CancellationToken) -> (handle: Self)
        ensures
            handle.task.handle() == task_handle,
            handle.task.token() == cancellation_token,
            handle.task.requests() == Seq::<TaskRequest>::empty(),
    {
        ActorHandle { task: Task::new(task_handle, cancellation_token) }
    }

    /// Abort the actor.
    pub fn abort(&mut self)
        ensures
            final(self).task.handle() == old(self).task.handle(),
            final(self).task.token() == old(self).task.token(),
            final(self).task.requests() == old(self).task.requests().push(TaskRequest::Abort),
    {
        self.task.abort();
    }

    /// Gracefully shutdown the actor: cancel its token, and hand out the task that the caller has
    /// to wait for. The task is asked to shut down, and nothing else.
    pub fn graceful_shutdown(self) -> (task: Task)
        ensures
            task.handle() == self.task.handle(),
            task.token() == self.task.token(),
            task.requests() == self.task.requests().push(TaskRequest::Cancel),
    {
        let mut task = self.task;
        task.cancel();
        task
    }
}

/// What an actor can wake up to.
pub enum ActorSignal<M> {
    /// The actor was asked to shut down.
    Cancelled,
    /// The next message, or none where nobody can send one any more.
    Message(Option<M>),
}

/// What an actor does next.
pub enum Turn<M> {
    /// Handle a message, then wait for the next signal.
    Handle(M),
    /// Stop.
    Stop,
}

/// What an actor does when it wakes up to `signal`: it handles messages until it is asked to shut
/// down or nobody can send one any more.
pub fn next_turn<M>(signal: ActorSignal<M>) -> (turn: Turn<M>)
    ensures
        turn == match signal {
            ActorSignal::Message(Some(message)) => Turn::Handle(message),
            ActorSignal::Message(None) => Turn::Stop,
            ActorSignal::Cancelled => Turn::Stop,
        },
{
    match signal {
        ActorSignal::Cancelled => Turn::Stop,
        ActorSignal::Message(Some(message)) => Turn::Handle(message),
        ActorSignal::Message(None) => Turn::Stop,
    }
}

} // verus!
