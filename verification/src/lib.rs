//! Asynchronous task-execution substrate and fan-out inference router.
//!
//! Every decision the runtime and the router make is a verified function of
//! this crate; suspension points (awaiting a handle, joining sub-dispatches,
//! draining a mailbox) belong to the embedding application.

pub mod control;
pub mod env;
pub mod inference;
pub mod kernels;
pub mod learner;
pub mod runtime;
pub mod train;
