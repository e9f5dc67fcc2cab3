//! The unit of work.

use std::future::Future;
use vstd::prelude::*;

verus! {

/// A one-shot computation that owns all it needs.
///
/// It is consumed by execution, exactly once, and produces a single output.
pub trait Task: Send + 'static {
    /// What the work produces.
    type Output: Send + 'static;

    /// The computation itself, once it has been started.
    type Future: Future<Output = Self::Output> + Send + 'static;

    /// Consumes the unit of work and starts it.
    fn call(self) -> Self::Future;
}

} // verus!
