use ferrum::runtime::service::{
    capacity_is_valid, rejection_for, rejection_of, respond, serve_request, Service,
    ServiceRequest, ServiceResult, ServiceRunner,
};
use ferrum::runtime::Error;
use futures::executor::block_on;

struct Echo {
    calls: usize,
}

impl Service for Echo {
    fn call(&mut self, method: &str, payload: Vec<u8>) -> ServiceResult<Vec<u8>> {
        self.calls += 1;
        if method == "echo" {
            Ok(payload)
        } else {
            Err(Error::Internal(format!("unknown method {}", method)))
        }
    }
}

#[test]
fn second_call_on_full_mailbox_is_rejected_with_queue_full() {
    let (_runner, address) = ServiceRunner::new(Echo { calls: 0 }, 1);
    let _first = address.call("echo", vec![1]);
    let second = address.call("echo", vec![2]);
    assert_eq!(block_on(second), Err(Error::QueueFull));
}

#[test]
fn call_on_closed_mailbox_is_rejected_with_service_unavailable() {
    let (runner, address) = ServiceRunner::new(Echo { calls: 0 }, 4);
    let clone = address.clone();
    drop(address);
    drop(runner);
    let handle = clone.call("echo", vec![1]);
    assert_eq!(block_on(handle), Err(Error::ServiceUnavailable));
}

#[test]
fn pending_call_is_canceled_when_the_runner_goes_away() {
    let (runner, address) = ServiceRunner::new(Echo { calls: 0 }, 4);
    let handle = address.call("echo", vec![1]);
    drop(runner);
    assert_eq!(block_on(handle), Err(Error::Canceled));
}

#[test]
fn runner_serves_entries_in_arrival_order() {
    let (runner, address) = ServiceRunner::new(Echo { calls: 0 }, 4);
    let first = address.call("echo", vec![1, 2, 3]);
    let second = address.call("nope", vec![]);
    let third = address.call("echo", vec![9]);
    let (mut service, mut mailbox) = runner.into_parts();
    let mut served = 0;
    while let Ok(request) = mailbox.try_recv() {
        assert_eq!(serve_request(&mut service, request), Ok(()));
        served += 1;
    }
    assert_eq!(served, 3);
    assert_eq!(service.calls, 3);
    assert_eq!(block_on(first), Ok(vec![1, 2, 3]));
    assert_eq!(
        block_on(second),
        Err(Error::Internal("unknown method nope".to_string()))
    );
    assert_eq!(block_on(third), Ok(vec![9]));
}

#[test]
fn reply_to_an_abandoned_caller_is_not_an_error() {
    let (runner, address) = ServiceRunner::new(Echo { calls: 0 }, 2);
    let handle = address.call("echo", vec![5]);
    assert_eq!(handle.cancel(), Ok(()));
    let (mut service, mut mailbox) = runner.into_parts();
    let request = mailbox.try_recv().expect("the call was queued");
    assert_eq!(serve_request(&mut service, request), Err(Ok(vec![5])));
    assert_eq!(service.calls, 1);
}

#[test]
fn runner_serve_replies_through_the_runner() {
    let (runner, address) = ServiceRunner::new(Echo { calls: 0 }, 2);
    let handle = address.call("echo", vec![4, 2]);
    let (service, mut mailbox) = runner.into_parts();
    let request = mailbox.try_recv().expect("the call was queued");
    let (mut other, _address) = ServiceRunner::new(service, 1);
    assert_eq!(other.serve(request), Ok(()));
    assert_eq!(block_on(handle), Ok(vec![4, 2]));
}

#[test]
fn request_parts_are_what_was_called() {
    let (runner, address) = ServiceRunner::new(Echo { calls: 0 }, 2);
    let handle = address.call("sum", vec![1, 2]);
    let (_service, mut mailbox) = runner.into_parts();
    let (method, payload, respond_to) = mailbox.try_recv().expect("queued").into_parts();
    assert_eq!(method, "sum");
    assert_eq!(payload, vec![1, 2]);
    assert_eq!(respond(respond_to, Ok(vec![3])), Ok(()));
    assert_eq!(block_on(handle), Ok(vec![3]));
}

#[test]
fn rejection_names_the_state_of_the_mailbox() {
    assert_eq!(rejection_for(true), Error::ServiceUnavailable);
    assert_eq!(rejection_for(false), Error::QueueFull);
}

#[test]
fn capacity_bounds() {
    assert!(!capacity_is_valid(0));
    assert!(capacity_is_valid(1));
    assert!(capacity_is_valid(usize::MAX / 8));
    assert!(!capacity_is_valid(usize::MAX / 8 + 1));
}

#[test]
fn address_identifier_is_shared_by_clones_and_differs_between_actors() {
    let (_runner, address) = ServiceRunner::new(Echo { calls: 0 }, 1);
    let (_other_runner, other) = ServiceRunner::new(Echo { calls: 0 }, 1);
    assert_eq!(address.id(), address.clone().id());
    assert_ne!(address.id(), other.id());
}

#[test]
fn rejection_depends_on_whether_the_entry_was_taken() {
    assert_eq!(rejection_of(&Ok(()), false), None);
    assert_eq!(rejection_of(&Ok(()), true), None);
    let (sender, _receiver) = tokio::sync::oneshot::channel();
    let refused = Err(ServiceRequest::new("sum", vec![1], sender));
    assert_eq!(rejection_of(&refused, false), Some(Error::QueueFull));
    assert_eq!(rejection_of(&refused, true), Some(Error::ServiceUnavailable));
}

#[test]
fn entry_holds_what_it_was_made_with() {
    let (sender, receiver) = tokio::sync::oneshot::channel();
    let request = ServiceRequest::new("sum", vec![1, 2], sender);
    let (method, payload, respond_to) = request.into_parts();
    assert_eq!(method, "sum");
    assert_eq!(payload, vec![1, 2]);
    assert_eq!(respond(respond_to, Err(Error::Timeout)), Ok(()));
    assert_eq!(receiver.blocking_recv(), Ok(Err(Error::Timeout)));
}

#[test]
fn undelivered_reply_is_handed_back() {
    let (sender, receiver) = tokio::sync::oneshot::channel();
    drop(receiver);
    assert_eq!(respond(sender, Ok(vec![9])), Err(Ok(vec![9])));
}

#[test]
fn accepted_call_reaches_the_mailbox_with_its_method_and_payload() {
    let (runner, address) = ServiceRunner::new(Echo { calls: 0 }, 2);
    let handle = address.call("echo", vec![7, 7]);
    let (_service, mut mailbox) = runner.into_parts();
    let (method, payload, respond_to) = mailbox.try_recv().expect("queued").into_parts();
    assert!(mailbox.try_recv().is_err());
    assert_eq!(method, "echo");
    assert_eq!(payload, vec![7, 7]);
    assert_eq!(respond(respond_to, Ok(payload)), Ok(()));
    assert_eq!(block_on(handle), Ok(vec![7, 7]));
}
