//! The task that an actor runs in, with a log of what was asked of it.
//!
//! The log of a [`Task`] holds the calls made through [`Task::cancel`] and [`Task::abort`], one
//! entry for each call. Who else holds the token can cancel it too, and that is in no log.

use tokio::task::JoinHandle;
use tokio_util::sync::CancellationToken;
use vstd::prelude::*;

verus! {

/// What can be asked of a task.
pub enum TaskRequest {
    /// To shut down: the task finishes what it is doing, and stops.
    Cancel,
    /// To end at once.
    Abort,
}

/// A task, and the token through which it is asked to shut down.
pub struct Task {
    handle: JoinHandle<()>,
    token: CancellationToken,
    requests: Ghost<Seq<TaskRequest>>,
}

/// Calls [`CancellationToken::cancel`], once, and the log holds that call. When those who watch the
/// token act on it is left open.
#[verifier::external_body]
fn cancel(task: &mut Task)
    ensures
        final(task).handle() == old(task).handle(),
        final(task).token() == old(task).token(),
        final(task).requests() == old(task).requests().push(TaskRequest::Cancel),
{
    task.token.cancel()
}

/// Calls [`JoinHandle::abort`], once, and the log holds that call. When the task ends is left open.
#[verifier::external_body]
fn abort(task: &mut Task)
    ensures
        final(task).handle() == old(task).handle(),
        final(task).token() == old(task).token(),
        final(task).requests() == old(task).requests().push(TaskRequest::Abort),
{
    task.handle.abort()
}

impl Task {
    /// Tokio's handle.
    pub closed spec fn handle(self) -> JoinHandle<()> {
        self.handle
    }

    /// The token that the task watches.
    pub closed spec fn token(self) -> CancellationToken {
        self.token
    }

    /// What was asked of the task, the first request first.
    pub closed spec fn requests(self) -> Seq<TaskRequest> {
        self.requests@
    }

    /// The task of `handle`, which watches `token`.
    pub fn new(handle: JoinHandle<()>, token: CancellationToken) -> (task: Self)
        ensures
            task.handle() == handle,
            task.token() == token,
            task.requests() == Seq::<TaskRequest>::empty(),
    {
        Task { handle, token, requests: Ghost(Seq::empty()) }
    }

    /// Asks the task to shut down, once.
    pub fn cancel(&mut self)
        ensures
            final(self).handle() == old(self).handle(),
            final(self).token() == old(self).token(),
            final(self).requests() == old(self).requests().push(TaskRequest::Cancel),
    {
        cancel(self);
    }

    /// Asks the task to end at once, once.
    pub fn abort(&mut self)
        ensures
            final(self).handle() == old(self).handle(),
            final(self).token() == old(self).token(),
            final(self).requests() == old(self).requests().push(TaskRequest::Abort),
    {
        abort(self);
    }

    /// Lends tokio's handle, for those who wait for the task to end.
    pub fn waiting(&mut self) -> (handle: &mut JoinHandle<()>)
        ensures
            *handle == old(self).handle(),
            final(self).handle() == *final(handle),
            final(self).token() == old(self).token(),
            final(self).requests() == old(self).requests(),
    {
        &mut self.handle
    }
}

} // verus!
