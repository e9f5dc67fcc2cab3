//! The completion-notification source: where a handle learns its outcome.

use std::future::Future;
use std::pin::Pin;
use std::task::{Context, Poll};
use tokio::sync::oneshot;
use tokio::sync::oneshot::error::RecvError;
use vstd::prelude::*;

use crate::runtime::error::Error;

verus! {

/// Receiving half of a one-shot channel (`tokio::sync::oneshot::Receiver`).
#[verifier::external_type_specification]
#[verifier::external_body]
#[verifier::reject_recursive_types(T)]
pub struct ExOneshotReceiver<T>(oneshot::Receiver<T>);

/// Sending half of a one-shot channel (`tokio::sync::oneshot::Sender`).
#[verifier::external_type_specification]
#[verifier::external_body]
#[verifier::reject_recursive_types(T)]
pub struct ExOneshotSender<T>(oneshot::Sender<T>);

/// A pinned pointer (`std::pin::Pin`).
#[verifier::external_type_specification]
#[verifier::external_body]
#[verifier::reject_recursive_types(Ptr)]
pub struct ExPin<Ptr>(Pin<Ptr>);

/// State of a polled future (`std::task::Poll`).
#[verifier::external_type_specification]
#[verifier::external_body]
#[verifier::reject_recursive_types(T)]
pub struct ExPoll<T>(Poll<T>);

/// Context of a poll (`std::task::Context`).
#[verifier::external_type_specification]
#[verifier::external_body]
pub struct ExContext<'a>(Context<'a>);

/// A source of exactly one outcome: a value, or the reason there is none.
///
/// Kept apart from the scheduler so that a source fed over the network can
/// stand in for the local channel without a change to handles.
pub trait ResultSource<T>: Future<Output = Result<T, Error>> + Send where
    T: Send + 'static,
 {

}

/// What a handle resolves to once its channel has resolved: the outcome that
/// was sent, or `Canceled` where the sender went away without sending.
pub open spec fn settled<T>(received: Result<Result<T, Error>, RecvError>) -> Result<T, Error> {
    match received {
        Ok(outcome) => outcome,
        Err(_) => Err(Error::Canceled),
    }
}

/// Computes [`settled`].
pub fn settle<T>(received: Result<Result<T, Error>, RecvError>) -> (outcome: Result<T, Error>)
    ensures
        outcome == settled(received),
{
    match received {
        Ok(outcome) => outcome,
        Err(_) => Err(Error::Canceled),
    }
}

/// A completion-notification source fed by a one-shot channel of this
/// process.
#[derive(Debug)]
#[verifier::reject_recursive_types(T)]
pub struct LocalResultSource<T> where T: Send + 'static {
    receiver: oneshot::Receiver<Result<T, Error>>,
}

impl<T> LocalResultSource<T> where T: Send + 'static {
    /// The receiving half that the source wraps.
    pub closed spec fn spec_receiver(&self) -> oneshot::Receiver<Result<T, Error>> {
        self.receiver
    }

    /// Wraps the receiving half of the channel on which the outcome comes.
    pub fn new(receiver: oneshot::Receiver<Result<T, Error>>) -> (source: Self)
        ensures
            source.spec_receiver() == receiver,
    {
        Self { receiver }
    }

    /// Gives the receiving half back.
    pub fn into_receiver(self) -> (receiver: oneshot::Receiver<Result<T, Error>>)
        ensures
            receiver == self.spec_receiver(),
    {
        self.receiver
    }
}

impl<T> Future for LocalResultSource<T> where T: Send + 'static {
    type Output = Result<T, Error>;

    /// Polls the channel (`<oneshot::Receiver as Future>::poll`) and settles
    /// what it yields with [`settle`]. Trusted; nothing is claimed of it.
    #[verifier::external_body]
    fn poll(mut self: Pin<&mut Self>, cx: &mut Context<'_>) -> Poll<Self::Output> {
        Pin::new(&mut self.receiver).poll(cx).map(settle)
    }
}

impl<T> ResultSource<T> for LocalResultSource<T> where T: Send + 'static {

}

} // verus!
