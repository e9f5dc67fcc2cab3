use ferrum::runtime::global::{get_or_init_scheduler, init, init_with_config, submit, SchedulerConfig};
use ferrum::runtime::handle::{map_outcome, settle_deadline};
use ferrum::runtime::result_source::{settle, LocalResultSource};
use ferrum::runtime::scheduler::{outcome_of, start, LocalScheduler};
use ferrum::runtime::{Error, Task, TaskHandle};
use futures::executor::block_on;
use std::future::Future;
use std::pin::Pin;
use std::sync::atomic::{AtomicBool, Ordering};
use std::sync::Arc;
use std::time::Duration;

struct Square {
    x: i32,
}

impl Task for Square {
    type Output = i32;
    type Future = std::future::Ready<i32>;

    fn call(self) -> Self::Future {
        std::future::ready(self.x * self.x)
    }
}

struct Slow {
    millis: u64,
    done: Arc<AtomicBool>,
}

impl Task for Slow {
    type Output = u64;
    type Future = Pin<Box<dyn Future<Output = u64> + Send>>;

    fn call(self) -> Self::Future {
        Box::pin(async move {
            tokio::time::sleep(Duration::from_millis(self.millis)).await;
            self.done.store(true, Ordering::SeqCst);
            self.millis
        })
    }
}

fn runtime() -> tokio::runtime::Runtime {
    tokio::runtime::Builder::new_current_thread()
        .enable_time()
        .build()
        .expect("a runtime")
}

#[test]
fn submitted_work_resolves_to_its_output() {
    let scheduler = LocalScheduler::new();
    let result = runtime().block_on(async { scheduler.submit(Square { x: 7 }).await });
    assert_eq!(result, Ok(49));
}

#[test]
fn shared_scheduler_runs_work() {
    assert_eq!(init(), Ok(()));
    assert_eq!(init_with_config(SchedulerConfig { workers: Some(2) }), Ok(()));
    assert!(SchedulerConfig::default().workers.is_none());
    let _scheduler: &'static LocalScheduler = get_or_init_scheduler();
    let result = runtime().block_on(async { submit(Square { x: -3 }).await });
    assert_eq!(result, Ok(9));
}

#[test]
fn submission_without_a_runtime_resolves_to_canceled() {
    let handle = LocalScheduler::new().submit(Square { x: 2 });
    assert_eq!(block_on(handle), Err(Error::Canceled));
}

#[test]
fn identifiers_of_submissions_differ() {
    let scheduler = LocalScheduler::new();
    let (first, _a) = scheduler.prepare::<u8>();
    let (second, _b) = scheduler.prepare::<u8>();
    assert_ne!(first.id(), second.id());
}

#[test]
fn prepared_handle_resolves_to_what_is_completed() {
    let (handle, completion) = LocalScheduler::new().prepare::<String>();
    assert_eq!(completion.complete("done".to_string()), Ok(()));
    assert_eq!(block_on(handle), Ok("done".to_string()));
}

#[test]
fn dropped_completion_cancels_the_handle() {
    let (handle, completion) = LocalScheduler::new().prepare::<u8>();
    drop(completion);
    assert_eq!(block_on(handle), Err(Error::Canceled));
}

#[test]
fn completion_after_the_handle_is_gone_is_not_delivered() {
    let (handle, completion) = LocalScheduler::new().prepare::<u8>();
    drop(handle);
    assert_eq!(completion.complete(1), Err(1));
}

#[test]
fn cancelling_a_handle_does_not_stop_the_work() {
    let done = Arc::new(AtomicBool::new(false));
    let flag = done.clone();
    runtime().block_on(async move {
        let handle = LocalScheduler::new().submit(Slow { millis: 20, done: flag });
        assert_eq!(handle.cancel(), Ok(()));
        tokio::time::sleep(Duration::from_millis(80)).await;
    });
    assert!(done.load(Ordering::SeqCst));
}

#[test]
fn shorter_deadline_resolves_to_timeout_and_no_deadline_to_the_value() {
    let done = Arc::new(AtomicBool::new(false));
    let flag = done.clone();
    let (raced, plain) = runtime().block_on(async move {
        let scheduler = LocalScheduler::new();
        let hurried = scheduler.submit(Slow { millis: 60, done: flag });
        let raced = settle_deadline(tokio::time::timeout(Duration::from_millis(5), hurried).await);
        let patient = scheduler.submit(Slow { millis: 10, done: Arc::new(AtomicBool::new(false)) });
        let plain = patient.await;
        tokio::time::sleep(Duration::from_millis(100)).await;
        (raced, plain)
    });
    assert_eq!(raced, Err(Error::Timeout));
    assert_eq!(plain, Ok(10));
    assert!(done.load(Ordering::SeqCst));
}

#[test]
fn deadline_that_is_met_passes_the_outcome_on() {
    let met = runtime().block_on(async {
        let handle = LocalScheduler::new().submit(Square { x: 4 });
        settle_deadline(tokio::time::timeout(Duration::from_millis(500), handle).await)
    });
    assert_eq!(met, Ok(16));
}

#[test]
fn mapping_applies_to_values_only() {
    assert_eq!(map_outcome(Ok(20), |x: i32| x + 1), Ok(21));
    assert_eq!(
        map_outcome(Err::<i32, Error>(Error::QueueFull), |x: i32| x + 1),
        Err(Error::QueueFull)
    );
}

#[test]
fn settling_a_received_outcome() {
    let (sender, receiver) = tokio::sync::oneshot::channel::<Result<u8, Error>>();
    sender.send(Ok(3)).expect("receiver is alive");
    assert_eq!(settle(receiver.blocking_recv()), Ok(3));
    let (sender, receiver) = tokio::sync::oneshot::channel::<Result<u8, Error>>();
    sender.send(Err(Error::Internal("boom".to_string()))).expect("receiver is alive");
    assert_eq!(
        settle(receiver.blocking_recv()),
        Err(Error::Internal("boom".to_string()))
    );
    let (sender, receiver) = tokio::sync::oneshot::channel::<Result<u8, Error>>();
    drop(sender);
    assert_eq!(settle(receiver.blocking_recv()), Err(Error::Canceled));
}

#[test]
fn handle_gives_back_its_source() {
    let (sender, receiver) = tokio::sync::oneshot::channel::<Result<u8, Error>>();
    let id = uuid::Uuid::new_v4();
    let handle: TaskHandle<u8> = TaskHandle::new(id, LocalResultSource::new(receiver));
    assert_eq!(handle.id(), id);
    sender.send(Ok(8)).expect("receiver is alive");
    let receiver = handle.into_source().into_receiver();
    assert_eq!(settle(receiver.blocking_recv()), Ok(8));
}

#[test]
fn receive_error_converts_to_canceled() {
    let (sender, receiver) = tokio::sync::oneshot::channel::<u8>();
    drop(sender);
    let dropped = receiver.blocking_recv().expect_err("the sender is gone");
    assert_eq!(Error::from(dropped), Error::Canceled);
}

#[test]
fn error_messages() {
    assert_eq!(Error::Canceled.message(), "task canceled");
    assert_eq!(Error::Timeout.message(), "timeout");
    assert_eq!(Error::QueueFull.message(), "queue is full");
    assert_eq!(Error::ServiceUnavailable.message(), "service unavailable");
    assert_eq!(
        Error::Serialize("bad".to_string()).message(),
        "serialization error: bad"
    );
    assert_eq!(
        Error::Deserialize("eof".to_string()).message(),
        "deserialization error: eof"
    );
    assert_eq!(
        Error::Internal("oops".to_string()).message(),
        "internal error: oops"
    );
}

#[test]
fn started_work_is_the_task_own_computation() {
    assert_eq!(block_on(start(Square { x: 6 })), 36);
    assert_eq!(outcome_of(5u8), Ok(5));
}

struct Relay {
    receiver: tokio::sync::oneshot::Receiver<Result<u8, Error>>,
}

impl Future for Relay {
    type Output = Result<u8, Error>;

    fn poll(
        mut self: Pin<&mut Self>,
        cx: &mut std::task::Context<'_>,
    ) -> std::task::Poll<Self::Output> {
        Pin::new(&mut self.receiver).poll(cx).map(settle)
    }
}

impl ferrum::runtime::ResultSource<u8> for Relay {}

#[test]
fn handle_over_a_substitute_source_can_be_awaited() {
    let (sender, receiver) = tokio::sync::oneshot::channel();
    let handle: TaskHandle<u8, Relay> = TaskHandle::new(uuid::Uuid::new_v4(), Relay { receiver });
    sender.send(Ok(11)).expect("receiver is alive");
    assert_eq!(block_on(handle), Ok(11));
}
