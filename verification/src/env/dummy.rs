//! A trivial environment for trying things out.

use vstd::prelude::*;

verus! {

/// Number of steps after which an episode of [`DummyEnv`] has ended.
pub const EPISODE_LENGTH: usize = 10;

/// An environment that counts its steps and ends each episode after ten.
#[derive(Debug)]
pub struct DummyEnv {
    step_count: usize,
}

impl DummyEnv {
    /// Steps taken in the current episode.
    pub closed spec fn steps(&self) -> nat {
        self.step_count as nat
    }

    /// An environment at the start of an episode.
    pub fn new() -> (env: Self)
        ensures
            env.steps() == 0,
    {
        Self { step_count: 0 }
    }

    /// Steps taken in the current episode.
    pub fn step_count(&self) -> (count: usize)
        ensures
            count == self.steps(),
    {
        self.step_count
    }

    /// Starts a new episode.
    pub fn restart(&mut self)
        ensures
            final(self).steps() == 0,
    {
        self.step_count = 0;
    }

    /// Takes one step and tells how many steps the episode now has and
    /// whether it has ended.
    pub fn advance(&mut self) -> (state: (usize, bool))
        requires
            old(self).steps() < usize::MAX,
        ensures
            final(self).steps() == old(self).steps() + 1,
            state.0 == final(self).steps(),
            state.1 == (final(self).steps() >= EPISODE_LENGTH),
    {
        self.step_count = self.step_count + 1;
        (self.step_count, self.step_count >= EPISODE_LENGTH)
    }
}

} // verus!
