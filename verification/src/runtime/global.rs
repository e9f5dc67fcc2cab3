//! The scheduler shared by the whole process.

use vstd::prelude::*;

use crate::runtime::handle::TaskHandle;
use crate::runtime::scheduler::LocalScheduler;
use crate::runtime::task::Task;

verus! {

/// Configuration of the shared scheduler.
#[derive(Debug, Clone)]
pub struct SchedulerConfig {
    /// Number of workers, or `None` to let the runtime decide.
    pub workers: Option<usize>,
}

impl Default for SchedulerConfig {
    fn default() -> (config: Self)
        ensures
            config.workers is None,
    {
        Self { workers: None }
    }
}

/// Makes sure the shared scheduler exists, with the default configuration.
pub fn init() -> (started: Result<(), String>)
    ensures
        started is Ok,
{
    init_with_config(SchedulerConfig::default())
}

/// Makes sure the shared scheduler exists. The local scheduler has nothing
/// to configure, so this never fails.
pub fn init_with_config(config: SchedulerConfig) -> (started: Result<(), String>)
    ensures
        started is Ok,
{
    let _ = get_or_init_scheduler();
    Ok(())
}

/// The scheduler shared by the whole process. The local scheduler has no
/// state, so every call yields the same scheduler.
pub fn get_or_init_scheduler() -> (scheduler: &'static LocalScheduler)
    ensures
        *scheduler == (LocalScheduler {  }),
{
    &LocalScheduler {  }
}

/// Submits a unit of work to the shared scheduler.
pub fn submit<T>(task: T) -> (handle: TaskHandle<T::Output>) where T: Task + 'static
    ensures
        handle.spec_rejection() is None,
{
    get_or_init_scheduler().submit(task)
}

} // verus!
