//! Sequential actors: mutable state behind a bounded mailbox.

use tokio::sync::mpsc;
use tokio::sync::oneshot;
use uuid::Uuid;
use vstd::prelude::*;

use crate::runtime::channel::{
    fresh_id, is_closed, mailbox, max_capacity, reply_channel, send_once, try_enqueue,
};
use crate::runtime::error::Error;
use crate::runtime::handle::TaskHandle;
use crate::runtime::result_source::LocalResultSource;

verus! {

/// Identifier of a running actor.
pub type ServiceId = Uuid;

/// Outcome of a call on an actor.
pub type ServiceResult<T> = Result<T, Error>;

/// An actor: state that only its runner touches.
///
/// The runner calls `call` for one mailbox entry at a time, in arrival
/// order, so the state is never mutated concurrently.
pub trait Service: Send {
    /// What one call may do: take the actor from `before` to `after` and
    /// answer `result` to `method` with `payload`. An actor that says nothing
    /// of itself allows everything.
    open spec fn answers(
        before: &Self,
        after: &Self,
        method: Seq<char>,
        payload: Seq<u8>,
        result: ServiceResult<Vec<u8>>,
    ) -> bool {
        true
    }

    /// Handles one call: `method` names the operation and `payload` is its
    /// encoded argument; the answer is the encoded result.
    fn call(&mut self, method: &str, payload: Vec<u8>) -> (result: ServiceResult<Vec<u8>>)
        ensures
            Self::answers(old(self), final(self), method@, payload@, result),
    ;
}

/// A mailbox entry: one call and the private channel for its reply.
pub struct ServiceRequest {
    method: String,
    payload: Vec<u8>,
    respond_to: oneshot::Sender<ServiceResult<Vec<u8>>>,
}

impl ServiceRequest {
    /// Name of the operation that is called.
    pub closed spec fn spec_method(&self) -> Seq<char> {
        self.method@
    }

    /// Encoded argument of the call.
    pub closed spec fn spec_payload(&self) -> Seq<u8> {
        self.payload@
    }

    /// The channel on which the reply is sent.
    pub closed spec fn spec_respond_to(&self) -> oneshot::Sender<ServiceResult<Vec<u8>>> {
        self.respond_to
    }

    /// Makes the entry of one call.
    pub fn new(
        method: &str,
        payload: Vec<u8>,
        respond_to: oneshot::Sender<ServiceResult<Vec<u8>>>,
    ) -> (request: Self)
        ensures
            request.spec_method() == method@,
            request.spec_payload() == payload@,
            request.spec_respond_to() == respond_to,
    {
        ServiceRequest { method: method.to_string(), payload, respond_to }
    }

    /// Takes the entry apart: the name of the operation, its encoded argument
    /// and the channel for the reply.
    pub fn into_parts(self) -> (parts: (
        String,
        Vec<u8>,
        oneshot::Sender<ServiceResult<Vec<u8>>>,
    ))
        ensures
            parts.0@ == self.spec_method(),
            parts.1@ == self.spec_payload(),
            parts.2 == self.spec_respond_to(),
    {
        (self.method, self.payload, self.respond_to)
    }
}

/// Sends the reply of a call to its caller.
///
/// A caller that has abandoned its handle is no error: the reply is then
/// handed back, as it was given.
pub fn respond(
    respond_to: oneshot::Sender<ServiceResult<Vec<u8>>>,
    result: ServiceResult<Vec<u8>>,
) -> (delivered: Result<(), ServiceResult<Vec<u8>>>)
    ensures
        delivered matches Err(back) ==> back == result,
{
    send_once(respond_to, result)
}

/// Handles one mailbox entry on `service`: calls the actor once, with the
/// method and the payload of the entry, and sends what it answered to the
/// caller.
///
/// A caller that has abandoned its handle is no error: the answer is then
/// handed back.
pub fn serve_request<S: Service>(service: &mut S, request: ServiceRequest) -> (delivered: Result<
    (),
    ServiceResult<Vec<u8>>,
>)
    ensures
        exists|answer: ServiceResult<Vec<u8>>|
            {
                &&& #[trigger] S::answers(
                    old(service),
                    final(service),
                    request.spec_method(),
                    request.spec_payload(),
                    answer,
                )
                &&& delivered matches Err(back) ==> back == answer
            },
{
    let (method, payload, respond_to) = request.into_parts();
    let result = service.call(method.as_str(), payload);
    let ghost answer = result;
    let delivered = respond(respond_to, result);
    assert(S::answers(
        old(service),
        service,
        request.spec_method(),
        request.spec_payload(),
        answer,
    ));
    delivered
}

/// The error with which a call is rejected when its entry was not taken by
/// the mailbox: `ServiceUnavailable` if the mailbox is closed, `QueueFull`
/// if it is merely at capacity.
pub open spec fn rejection(closed: bool) -> Error {
    if closed {
        Error::ServiceUnavailable
    } else {
        Error::QueueFull
    }
}

/// Computes [`rejection`].
pub fn rejection_for(closed: bool) -> (error: Error)
    ensures
        error == rejection(closed),
{
    if closed {
        Error::ServiceUnavailable
    } else {
        Error::QueueFull
    }
}

/// The error with which a call is rejected, if it is: none where the
/// mailbox has taken the entry, else the one that [`rejection`] names for
/// the state of the mailbox.
pub fn rejection_of(taken: &Result<(), ServiceRequest>, closed: bool) -> (error: Option<Error>)
    ensures
        error == (if taken is Ok {
            None
        } else {
            Some(rejection(closed))
        }),
{
    match taken {
        Ok(()) => None,
        Err(_) => Some(rejection_for(closed)),
    }
}

/// Tells whether a mailbox can be made with `capacity` entries.
pub fn capacity_is_valid(capacity: usize) -> (valid: bool)
    ensures
        valid == (0 < capacity <= max_capacity()),
{
    capacity > 0 && capacity <= usize::MAX / 8
}

/// The runner of an actor: owns the actor and the receiving end of its
/// mailbox.
pub struct ServiceRunner<S> {
    id: ServiceId,
    service: S,
    rx: mpsc::Receiver<ServiceRequest>,
}

impl<S> ServiceRunner<S> {
    /// Makes the mailbox of an actor and the two sides of it: the runner,
    /// which is to be run concurrently, and the address for callers.
    pub fn new(service: S, capacity: usize) -> (sides: (Self, ServiceAddress))
        requires
            0 < capacity <= max_capacity(),
        ensures
            sides.0.spec_service() == service,
    {
        let id = fresh_id();
        let (tx, rx) = mailbox::<ServiceRequest>(capacity);
        (ServiceRunner { id, service, rx }, ServiceAddress { id, tx })
    }

    /// The actor that the runner owns.
    pub closed spec fn spec_service(&self) -> S {
        self.service
    }

    /// Identifier of the actor.
    pub closed spec fn spec_id(&self) -> ServiceId {
        self.id
    }

    /// The receiving end of the mailbox.
    pub closed spec fn spec_mailbox(&self) -> mpsc::Receiver<ServiceRequest> {
        self.rx
    }

    /// Takes the runner apart: the actor and the receiving end of its
    /// mailbox.
    pub fn into_parts(self) -> (parts: (S, mpsc::Receiver<ServiceRequest>))
        ensures
            parts.0 == self.spec_service(),
            parts.1 == self.spec_mailbox(),
    {
        (self.service, self.rx)
    }
}

impl<S: Service> ServiceRunner<S> {
    /// Handles one mailbox entry on the actor: calls it once, with the
    /// method and the payload of the entry, and sends what it answered to
    /// the caller. Nothing of the runner but its actor changes.
    ///
    /// A caller that has abandoned its handle is no error: the answer is then
    /// handed back.
    pub fn serve(&mut self, request: ServiceRequest) -> (delivered: Result<
        (),
        ServiceResult<Vec<u8>>,
    >)
        ensures
            exists|answer: ServiceResult<Vec<u8>>|
                {
                    &&& #[trigger] S::answers(
                        &old(self).spec_service(),
                        &final(self).spec_service(),
                        request.spec_method(),
                        request.spec_payload(),
                        answer,
                    )
                    &&& delivered matches Err(back) ==> back == answer
                },
            final(self).spec_id() == old(self).spec_id(),
            final(self).spec_mailbox() == old(self).spec_mailbox(),
    {
        let delivered = serve_request(&mut self.service, request);
        proof {
            let answer = choose|answer: ServiceResult<Vec<u8>>|
                {
                    &&& #[trigger] S::answers(
                        &old(self).service,
                        &self.service,
                        request.spec_method(),
                        request.spec_payload(),
                        answer,
                    )
                    &&& delivered matches Err(back) ==> back == answer
                };
            assert(S::answers(
                &old(self).spec_service(),
                &self.spec_service(),
                request.spec_method(),
                request.spec_payload(),
                answer,
            ));
        }
        delivered
    }
}

/// The address of an actor: a handle for callers that may be cloned and sent
/// around.
#[derive(Clone)]
pub struct ServiceAddress {
    id: ServiceId,
    tx: mpsc::Sender<ServiceRequest>,
}

impl ServiceAddress {
    /// Identifier of the actor, as a specification value.
    pub closed spec fn spec_id(&self) -> ServiceId {
        self.id
    }

    /// Identifier of the actor.
    pub fn id(&self) -> (id: ServiceId)
        ensures
            id == self.spec_id(),
    {
        self.id
    }

    /// Calls the actor and returns the handle of the reply, without ever
    /// blocking.
    ///
    /// The entry that is offered to the mailbox holds the method and the
    /// payload as given. A call that the mailbox does not take is rejected on
    /// the spot: the error that [`rejection`] names for the state of the
    /// mailbox, `QueueFull` or `ServiceUnavailable`, is sent to the handle
    /// and recorded in it.
    pub fn call(&self, method: &str, payload: Vec<u8>) -> (handle: TaskHandle<Vec<u8>>)
        ensures
            handle.spec_rejection() matches Some(error) ==> error == Error::QueueFull || error
                == Error::ServiceUnavailable,
    {
        let call_id = fresh_id();
        let (res_tx, res_rx) = reply_channel::<ServiceResult<Vec<u8>>>();
        let request = ServiceRequest::new(method, payload, res_tx);
        let taken = try_enqueue(&self.tx, request);
        let closed = taken.is_err() && is_closed(&self.tx);
        let rejected = rejection_of(&taken, closed);
        let ghost record = rejected;
        match taken {
            Ok(()) => {},
            Err(refused) => {
                match rejected {
                    Some(error) => {
                        let (_, _, respond_to) = refused.into_parts();
                        let _ = respond(respond_to, Err(error));
                    },
                    None => {},
                }
            },
        }
        TaskHandle::with_rejection(call_id, LocalResultSource::new(res_rx), Ghost(record))
    }
}

} // verus!
