//! Outcomes that arrive as JSON bytes.

use std::marker::PhantomData;
use tokio::sync::oneshot;
use vstd::prelude::*;

use crate::runtime::error::Error;
use crate::runtime::result_source::LocalResultSource;

verus! {

/// What a source of JSON bytes resolves to, given what decoding its bytes
/// yields: the decoded value, or `Deserialize` with the text of the decoder's
/// failure.
pub open spec fn decoded_outcome<T>(decoded: Result<T, String>) -> Result<T, Error> {
    match decoded {
        Ok(value) => Ok(value),
        Err(failure) => Err(Error::Deserialize(failure)),
    }
}

/// Settles the outcome of a source of JSON bytes.
///
/// An error of the source is the outcome and nothing is decoded. Otherwise
/// `decode` is called on the bytes, once, and what it yields decides.
pub fn settle_decoded<T, F>(received: Result<Vec<u8>, Error>, decode: F) -> (outcome: Result<
    T,
    Error,
>) where F: FnOnce(&Vec<u8>) -> Result<T, String>
    requires
        received matches Ok(bytes) ==> call_requires(decode, (&bytes,)),
    ensures
        received matches Err(error) ==> outcome == Err::<T, Error>(error),
        received matches Ok(bytes) ==> exists|decoded: Result<T, String>|
            #[trigger] call_ensures(decode, (&bytes,), decoded) && outcome == decoded_outcome(
                decoded,
            ),
{
    match received {
        Ok(bytes) => {
            let decoded = decode(&bytes);
            match decoded {
                Ok(value) => Ok(value),
                Err(failure) => Err(Error::Deserialize(failure)),
            }
        },
        Err(error) => Err(error),
    }
}

/// A completion-notification source whose outcome arrives as JSON bytes and
/// is decoded into `T` when it resolves.
#[derive(Debug)]
#[verifier::reject_recursive_types(T)]
pub struct JsonResultSource<T> {
    inner: LocalResultSource<Vec<u8>>,
    _phantom: PhantomData<Box<T>>,
}

impl<T> JsonResultSource<T> where T: Send + 'static {
    /// The source of the bytes.
    pub closed spec fn spec_inner(&self) -> LocalResultSource<Vec<u8>> {
        self.inner
    }

    /// Wraps the receiving half of the channel on which the bytes come.
    pub fn from_receiver(receiver: oneshot::Receiver<Result<Vec<u8>, Error>>) -> (source: Self)
        ensures
            source.spec_inner().spec_receiver() == receiver,
    {
        Self { inner: LocalResultSource::new(receiver), _phantom: PhantomData }
    }

    /// Gives up the decoding and returns the source of the bytes.
    pub fn into_inner(self) -> (inner: LocalResultSource<Vec<u8>>)
        ensures
            inner == self.spec_inner(),
    {
        self.inner
    }
}

} // verus!
