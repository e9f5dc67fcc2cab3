//! The channels of `tokio::sync` that the runtime is built on, each call
//! behind a contract that says what its source shows and no more.

use tokio::sync::mpsc;
use tokio::sync::mpsc::error::TrySendError;
use tokio::sync::oneshot;
use uuid::Uuid;
use vstd::prelude::*;

verus! {

/// Sending half of a bounded queue (`tokio::sync::mpsc::Sender`).
#[verifier::external_type_specification]
#[verifier::external_body]
#[verifier::reject_recursive_types(T)]
pub struct ExMailboxSender<T>(mpsc::Sender<T>);

/// Receiving half of a bounded queue (`tokio::sync::mpsc::Receiver`).
#[verifier::external_type_specification]
#[verifier::external_body]
#[verifier::reject_recursive_types(T)]
pub struct ExMailboxReceiver<T>(mpsc::Receiver<T>);

/// Largest capacity a bounded queue can be made with: the number of permits
/// a `tokio` semaphore can hold.
pub open spec fn max_capacity() -> nat {
    (usize::MAX as nat) / 8
}

/// Copying an identifier (`<Uuid as Clone>::clone`) yields the same
/// identifier: `Uuid` is a plain 128-bit value.
pub assume_specification[ <Uuid as Clone>::clone ](id: &Uuid) -> (copy: Uuid)
    ensures
        copy == *id,
;

/// Cloning the sending half of a bounded queue
/// (`<mpsc::Sender<T> as Clone>::clone`) yields one more sender of the same
/// queue; nothing is claimed of it.
pub assume_specification<T>[ <mpsc::Sender<T> as Clone>::clone ](
    sender: &mpsc::Sender<T>,
) -> (other: mpsc::Sender<T>)
;

/// Draws a random identifier (`Uuid::new_v4`).
///
/// Trusted; nothing is claimed of the identifier.
#[verifier::external_body]
pub(crate) fn fresh_id() -> (id: Uuid) {
    Uuid::new_v4()
}

/// Makes a one-shot channel (`tokio::sync::oneshot::channel`).
///
/// Trusted; nothing is claimed of the two halves.
#[verifier::external_body]
pub(crate) fn reply_channel<T>() -> (halves: (oneshot::Sender<T>, oneshot::Receiver<T>)) {
    oneshot::channel()
}

/// Sends the one value of a one-shot channel (`oneshot::Sender::send`).
///
/// Trusted: where the value could not be delivered it is handed back as it
/// was given.
#[verifier::external_body]
pub(crate) fn send_once<T>(sender: oneshot::Sender<T>, value: T) -> (sent: Result<(), T>)
    ensures
        sent matches Err(back) ==> back == value,
{
    sender.send(value)
}

/// Makes a bounded queue (`tokio::sync::mpsc::channel`), which panics on a
/// capacity of zero or above the number of permits of a semaphore.
///
/// Trusted; nothing is claimed of the two halves.
#[verifier::external_body]
pub(crate) fn mailbox<T>(capacity: usize) -> (halves: (mpsc::Sender<T>, mpsc::Receiver<T>))
    requires
        0 < capacity <= max_capacity(),
{
    mpsc::channel(capacity)
}

/// Puts a message into a bounded queue without waiting
/// (`mpsc::Sender::try_send`).
///
/// Trusted: a message that was not taken, because the queue was full or
/// closed, is handed back as it was given.
#[verifier::external_body]
pub(crate) fn try_enqueue<T>(sender: &mpsc::Sender<T>, message: T) -> (taken: Result<(), T>)
    ensures
        taken matches Err(back) ==> back == message,
{
    match sender.try_send(message) {
        Ok(()) => Ok(()),
        Err(TrySendError::Full(back)) => Err(back),
        Err(TrySendError::Closed(back)) => Err(back),
    }
}

/// Tells whether the receiving half of a bounded queue is closed or gone
/// (`mpsc::Sender::is_closed`).
///
/// Trusted; the answer is that of the moment of the call.
#[verifier::external_body]
pub(crate) fn is_closed<T>(sender: &mpsc::Sender<T>) -> (closed: bool) {
    sender.is_closed()
}

} // verus!
