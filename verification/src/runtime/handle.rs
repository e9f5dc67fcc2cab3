//! The completion handle: an identifier and a view of a pending outcome.

use std::future::Future;
use std::marker::PhantomData;
use std::pin::Pin;
use std::task::{Context, Poll};
use tokio::time::error::Elapsed;
use uuid::Uuid;
use vstd::prelude::*;

use crate::runtime::error::Error;
use crate::runtime::result_source::{LocalResultSource, ResultSource};

verus! {

/// A 128-bit identifier (`uuid::Uuid`).
#[verifier::external_type_specification]
#[verifier::external_body]
pub struct ExUuid(Uuid);

/// The error of a deadline that has passed (`tokio::time::error::Elapsed`).
#[verifier::external_type_specification]
#[verifier::external_body]
pub struct ExElapsed(Elapsed);

/// What a handle under a deadline resolves to: its own outcome if that came
/// first, `Timeout` if the deadline did.
pub open spec fn settled_by_deadline<T>(raced: Result<Result<T, Error>, Elapsed>) -> Result<
    T,
    Error,
> {
    match raced {
        Ok(outcome) => outcome,
        Err(_) => Err(Error::Timeout),
    }
}

/// Computes [`settled_by_deadline`].
pub fn settle_deadline<T>(raced: Result<Result<T, Error>, Elapsed>) -> (outcome: Result<T, Error>)
    ensures
        outcome == settled_by_deadline(raced),
{
    match raced {
        Ok(outcome) => outcome,
        Err(_) => Err(Error::Timeout),
    }
}

/// Applies `f` to the value of an outcome, once there is one; an error is
/// passed on and `f` is not called.
pub fn map_outcome<T, U, F>(outcome: Result<T, Error>, f: F) -> (mapped: Result<U, Error>) where
    F: FnOnce(T) -> U,

    requires
        outcome matches Ok(value) ==> call_requires(f, (value,)),
    ensures
        outcome matches Err(error) ==> mapped == Err::<U, Error>(error),
        outcome matches Ok(value) ==> (mapped matches Ok(image) && call_ensures(
            f,
            (value,),
            image,
        )),
{
    match outcome {
        Ok(value) => Ok(f(value)),
        Err(error) => Err(error),
    }
}

/// A handle to submitted work: resolves at most once, to a value or to an
/// error.
///
/// `T` is what the work produces; `S` is where the outcome comes from, the
/// local channel unless said otherwise.
#[verifier::reject_recursive_types(T)]
#[verifier::reject_recursive_types(S)]
pub struct TaskHandle<T, S = LocalResultSource<T>> {
    id: Uuid,
    source: S,
    rejection: Ghost<Option<Error>>,
    _phantom: PhantomData<Box<T>>,
}

impl<T, S> TaskHandle<T, S> where T: Send + 'static, S: ResultSource<T> {
    /// Joins an identifier and the source of the outcome into a handle of
    /// work that was taken on.
    pub fn new(id: Uuid, source: S) -> (handle: Self)
        ensures
            handle.spec_id() == id,
            handle.spec_source() == source,
            handle.spec_rejection() is None,
    {
        Self { id, source, rejection: Ghost(None), _phantom: PhantomData }
    }

    /// Joins an identifier and the source of the outcome into a handle, with
    /// the record of whether the work was turned away when the handle was
    /// made, and with which error.
    pub(crate) fn with_rejection(id: Uuid, source: S, rejection: Ghost<Option<Error>>) -> (handle:
        Self)
        ensures
            handle.spec_id() == id,
            handle.spec_source() == source,
            handle.spec_rejection() == rejection@,
    {
        Self { id, source, rejection, _phantom: PhantomData }
    }

    /// The error with which the work was turned away on the spot, when the
    /// handle was made, if it was: that error has then been sent to the
    /// source of the handle. `None` for work that was taken on.
    pub closed spec fn spec_rejection(&self) -> Option<Error> {
        self.rejection@
    }

    /// The identifier the handle was created with.
    pub closed spec fn spec_id(&self) -> Uuid {
        self.id
    }

    /// The source the handle was created with.
    pub closed spec fn spec_source(&self) -> S {
        self.source
    }

    /// The identifier assigned at submission.
    pub fn id(&self) -> (id: Uuid)
        ensures
            id == self.spec_id(),
    {
        self.id
    }

    /// Gives up the handle and returns the source of its outcome.
    pub fn into_source(self) -> (source: S)
        ensures
            source == self.spec_source(),
    {
        self.source
    }

    /// Detaches the caller: the source is dropped and the outcome, if one
    /// ever comes, is discarded. The work itself is not asked to stop.
    pub fn cancel(self) -> (detached: Result<(), Error>)
        ensures
            detached is Ok,
    {
        Ok(())
    }
}

impl<T, S> Future for TaskHandle<T, S> where T: Send + 'static, S: ResultSource<T> + Unpin {
    type Output = Result<T, Error>;

    /// Polls the source (`Future::poll` of the source). Trusted; nothing is
    /// claimed of it.
    #[verifier::external_body]
    fn poll(self: Pin<&mut Self>, cx: &mut Context<'_>) -> Poll<Self::Output> {
        Pin::new(&mut self.get_mut().source).poll(cx)
    }
}

} // verus!
