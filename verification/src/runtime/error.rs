//! Failures of the task runtime.

use tokio::sync::oneshot::error::RecvError;
use vstd::prelude::*;
use vstd::std_specs::convert::FromSpecImpl;
use vstd::string::StringExecFns;

verus! {

/// The error with which a one-shot receiver resolves when its sender was
/// dropped without sending (`tokio::sync::oneshot::error::RecvError`).
#[verifier::external_type_specification]
#[verifier::external_body]
pub struct ExRecvError(RecvError);

/// Why a handle resolved without a value.
#[derive(Debug, PartialEq, Eq)]
pub enum Error {
    /// The producer went away without sending an outcome.
    Canceled,
    /// The deadline elapsed before the outcome arrived.
    Timeout,
    /// The mailbox of the actor was at capacity.
    QueueFull,
    /// The mailbox of the actor was closed.
    ServiceUnavailable,
    /// A payload could not be encoded.
    Serialize(String),
    /// A payload could not be decoded.
    Deserialize(String),
    /// Anything else.
    Internal(String),
}

/// Mathematical content of an [`Error`].
pub enum ErrorView {
    Canceled,
    Timeout,
    QueueFull,
    ServiceUnavailable,
    Serialize(Seq<char>),
    Deserialize(Seq<char>),
    Internal(Seq<char>),
}

impl DeepView for Error {
    type V = ErrorView;

    open spec fn deep_view(&self) -> ErrorView {
        match self {
            Error::Canceled => ErrorView::Canceled,
            Error::Timeout => ErrorView::Timeout,
            Error::QueueFull => ErrorView::QueueFull,
            Error::ServiceUnavailable => ErrorView::ServiceUnavailable,
            Error::Serialize(detail) => ErrorView::Serialize(detail@),
            Error::Deserialize(detail) => ErrorView::Deserialize(detail@),
            Error::Internal(detail) => ErrorView::Internal(detail@),
        }
    }
}

impl Clone for Error {
    fn clone(&self) -> (res: Self)
        ensures
            res == *self,
    {
        match self {
            Error::Canceled => Error::Canceled,
            Error::Timeout => Error::Timeout,
            Error::QueueFull => Error::QueueFull,
            Error::ServiceUnavailable => Error::ServiceUnavailable,
            Error::Serialize(detail) => Error::Serialize(detail.clone()),
            Error::Deserialize(detail) => Error::Deserialize(detail.clone()),
            Error::Internal(detail) => Error::Internal(detail.clone()),
        }
    }
}

impl Error {
    /// Text of the error as shown to a user.
    pub open spec fn spec_message(&self) -> Seq<char> {
        match self {
            Error::Canceled => "task canceled"@,
            Error::Timeout => "timeout"@,
            Error::QueueFull => "queue is full"@,
            Error::ServiceUnavailable => "service unavailable"@,
            Error::Serialize(detail) => "serialization error: "@ + detail@,
            Error::Deserialize(detail) => "deserialization error: "@ + detail@,
            Error::Internal(detail) => "internal error: "@ + detail@,
        }
    }

    /// Renders the error as shown to a user.
    pub fn message(&self) -> (text: String)
        ensures
            text@ == self.spec_message(),
    {
        match self {
            Error::Canceled => "task canceled".to_string(),
            Error::Timeout => "timeout".to_string(),
            Error::QueueFull => "queue is full".to_string(),
            Error::ServiceUnavailable => "service unavailable".to_string(),
            Error::Serialize(detail) => "serialization error: ".to_string().concat(
                detail.as_str(),
            ),
            Error::Deserialize(detail) => "deserialization error: ".to_string().concat(
                detail.as_str(),
            ),
            Error::Internal(detail) => "internal error: ".to_string().concat(detail.as_str()),
        }
    }
}

impl From<RecvError> for Error {
    /// A receiver whose sender went away reports a canceled task.
    fn from(dropped: RecvError) -> (error: Error) {
        Error::Canceled
    }
}

impl FromSpecImpl<RecvError> for Error {
    open spec fn obeys_from_spec() -> bool {
        true
    }

    open spec fn from_spec(dropped: RecvError) -> Error {
        Error::Canceled
    }
}

} // verus!
