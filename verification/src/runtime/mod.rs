//! Units of work, completion handles, the local scheduler and sequential
//! actors.

pub mod channel;
pub mod codec;
pub mod codegen;
pub mod error;
pub mod global;
pub mod handle;
pub mod result_source;
pub mod scheduler;
pub mod service;
pub mod task;

pub use error::Error;
pub use global::{get_or_init_scheduler, init, init_with_config, submit, SchedulerConfig};
pub use handle::TaskHandle;
pub use result_source::{LocalResultSource, ResultSource};
pub use scheduler::{Completion, LocalScheduler};
pub use service::{Service, ServiceAddress, ServiceRequest, ServiceRunner};
pub use task::Task;
