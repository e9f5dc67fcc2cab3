//! What an environment is to the training loop.

use vstd::prelude::*;

use crate::env::errors::EnvError;

verus! {

/// A reward, held as the IEEE-754 single-precision bit pattern of its
/// value so that it can be carried and compared exactly.
#[derive(Debug, Clone, Copy, PartialEq, Eq)]
pub struct Reward {
    pub bits: u32,
}

/// An environment an agent acts in.
pub trait Env: Send {
    type Obs: Send + Clone + 'static;

    type Act: Send + Clone + 'static;

    type Info: Send + Clone + 'static;

    /// What one reset may do: take the environment from `before` to `after`
    /// and return `result`. An environment that says nothing of itself
    /// allows everything.
    open spec fn resets_to(before: &Self, after: &Self, result: Result<Self::Obs, EnvError>) -> bool {
        true
    }

    /// What one step with `act` may do: take the environment from `before`
    /// to `after` and return `result`.
    open spec fn steps_to(
        before: &Self,
        act: Self::Act,
        after: &Self,
        result: Result<(Self::Obs, Reward, bool, Self::Info), EnvError>,
    ) -> bool {
        true
    }

    /// What closing may do: take the environment from `before` to `after`
    /// and return `result`.
    open spec fn closes_to(before: &Self, after: &Self, result: Result<(), EnvError>) -> bool {
        true
    }

    /// Starts a new episode and returns its first observation.
    fn reset(&mut self) -> (result: Result<Self::Obs, EnvError>)
        ensures
            Self::resets_to(old(self), final(self), result),
    ;

    /// Applies one action: the next observation, the reward, whether the
    /// episode has ended, and what else the environment has to say.
    fn step(&mut self, act: Self::Act) -> (result: Result<
        (Self::Obs, Reward, bool, Self::Info),
        EnvError,
    >)
        ensures
            Self::steps_to(old(self), act, final(self), result),
    ;

    /// Releases what the environment holds.
    fn close(&mut self) -> (result: Result<(), EnvError>)
        ensures
            Self::closes_to(old(self), final(self), result),
    ;
}

} // verus!
