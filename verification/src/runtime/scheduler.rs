//! The local scheduler: wires a unit of work to its handle.

use futures::FutureExt;
use std::future::Future;
use tokio::runtime::Handle;
use tokio::sync::oneshot;
use vstd::prelude::*;

use crate::runtime::channel::{fresh_id, reply_channel, send_once};
use crate::runtime::error::Error;
use crate::runtime::handle::TaskHandle;
use crate::runtime::result_source::LocalResultSource;
use crate::runtime::task::Task;

verus! {

/// The producer's end of a submission: where the outcome of the work is
/// sent, exactly once.
#[verifier::reject_recursive_types(T)]
pub struct Completion<T> where T: Send + 'static {
    sender: oneshot::Sender<Result<T, Error>>,
}

/// The outcome of work that has produced `output`: success with that
/// output.
pub fn outcome_of<T>(output: T) -> (outcome: Result<T, Error>)
    ensures
        outcome == Ok::<T, Error>(output),
{
    Ok(output)
}

impl<T> Completion<T> where T: Send + 'static {
    /// Sends the output of the work to its handle, as the success it is.
    ///
    /// An abandoned handle is no error: the output is then handed back, as
    /// it was given.
    pub fn complete(self, output: T) -> (delivered: Result<(), T>)
        ensures
            delivered matches Err(back) ==> back == output,
    {
        match send_once(self.sender, outcome_of(output)) {
            Ok(()) => Ok(()),
            Err(Ok(back)) => Err(back),
            Err(Err(_)) => {
                // What is handed back is what was sent, and that was a success.
                assert(false);
                Ok(())
            },
        }
    }
}

/// Starts a unit of work: consumes it and returns the computation that
/// `Task::call` makes of it.
pub fn start<T>(task: T) -> (work: T::Future) where T: Task + 'static
    ensures
        call_ensures(T::call, (task,), work),
{
    task.call()
}

/// Starts `work` as a concurrent activity of the runtime the caller runs in
/// (`Handle::try_current`, `Handle::spawn`), with its output handed to
/// `completion` when it is done (`FutureExt::map`).
///
/// Trusted. Returns whether there was a runtime to start the work on; where
/// there was none, `work` and `completion` are dropped.
#[verifier::external_body]
fn launch<F>(work: F, completion: Completion<F::Output>) -> (launched: bool) where
    F: Future + Send + 'static,
    F::Output: Send + 'static,
 {
    match Handle::try_current() {
        Ok(runtime) => {
            runtime.spawn(work.map(move |output| completion.complete(output)));
            true
        },
        Err(_) => false,
    }
}

/// Runs units of work on the worker pool of this process.
///
/// The scheduler keeps no queue and sets no limit: every submission starts
/// its own concurrent activity.
pub struct LocalScheduler {}

impl LocalScheduler {
    /// Makes a scheduler. It has no state: all schedulers are alike.
    pub fn new() -> (scheduler: Self)
        ensures
            scheduler == (LocalScheduler {  }),
    {
        Self {  }
    }

    /// Allocates what a submission needs before its work is launched: an
    /// identifier and the two ends of the completion channel.
    ///
    /// The handle resolves to what is sent through the completion, or to
    /// `Canceled` if the completion is dropped first. Nothing is turned away
    /// here: the handle is one of work that was taken on.
    pub fn prepare<T>(&self) -> (ends: (TaskHandle<T>, Completion<T>)) where T: Send + 'static
        ensures
            ends.0.spec_rejection() is None,
    {
        let task_id = fresh_id();
        let (sender, receiver) = reply_channel::<Result<T, Error>>();
        (TaskHandle::new(task_id, LocalResultSource::new(receiver)), Completion { sender })
    }

    /// Submits a unit of work and returns its handle without waiting.
    ///
    /// The work is started at once, as an activity of its own. Its output is
    /// sent to the handle when it is done; if the activity is torn down
    /// before that, or if there is no runtime to start it on, the handle
    /// resolves to `Canceled`.
    pub fn submit<T>(&self, task: T) -> (handle: TaskHandle<T::Output>) where T: Task + 'static
        ensures
            handle.spec_rejection() is None,
    {
        let (handle, completion) = self.prepare::<T::Output>();
        let work = start(task);
        let _ = launch(work, completion);
        handle
    }
}

} // verus!
