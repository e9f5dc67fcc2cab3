//! Several environments stepped together.

use std::marker::PhantomData;
use vstd::prelude::*;

use crate::env::errors::EnvError;
use crate::env::traits::{Env, Reward};

verus! {

/// The environments after position `last` are the same in `after` as in
/// `before`.
pub open spec fn untouched_after<E>(before: Seq<E>, after: Seq<E>, last: int) -> bool {
    &&& after.len() == before.len()
    &&& forall|i: int| last < i < before.len() ==> #[trigger] after[i] == before[i]
}

/// Environment `i` was reset and returned an observation.
pub open spec fn reset_succeeded_at<E: Env>(before: Seq<E>, after: Seq<E>, i: int) -> bool {
    exists|observation: E::Obs| #[trigger] E::resets_to(&before[i], &after[i], Ok(observation))
}

/// Environment `i` took action `i` and returned an outcome.
pub open spec fn step_succeeded_at<E: Env>(
    before: Seq<E>,
    actions: Seq<E::Act>,
    after: Seq<E>,
    i: int,
) -> bool {
    exists|outcome: (E::Obs, Reward, bool, E::Info)| #[trigger]
        E::steps_to(&before[i], actions[i], &after[i], Ok(outcome))
}

/// The reset of the environments stopped at `failed`: those before it were
/// reset and returned an observation, it was reset and returned `error`,
/// and those after it were not touched.
pub open spec fn reset_failed_at<E: Env>(
    before: Seq<E>,
    after: Seq<E>,
    failed: int,
    error: EnvError,
) -> bool {
    &&& 0 <= failed < before.len()
    &&& E::resets_to(&before[failed], &after[failed], Err(error))
    &&& forall|i: int| 0 <= i < failed ==> #[trigger] reset_succeeded_at(before, after, i)
    &&& untouched_after(before, after, failed)
}

/// The step of the environments stopped at `failed`: those before it took
/// their action and returned an outcome, it took its action and returned
/// `error`, and those after it were not touched.
pub open spec fn step_failed_at<E: Env>(
    before: Seq<E>,
    actions: Seq<E::Act>,
    after: Seq<E>,
    failed: int,
    error: EnvError,
) -> bool {
    &&& 0 <= failed < before.len()
    &&& E::steps_to(&before[failed], actions[failed], &after[failed], Err(error))
    &&& forall|i: int|
        0 <= i < failed ==> #[trigger] step_succeeded_at(before, actions, after, i)
    &&& untouched_after(before, after, failed)
}

/// The closing of the environments stopped at `failed`: those before it
/// were closed, it returned `error`, and those after it were not touched.
pub open spec fn close_failed_at<E: Env>(
    before: Seq<E>,
    after: Seq<E>,
    failed: int,
    error: EnvError,
) -> bool {
    &&& 0 <= failed < before.len()
    &&& E::closes_to(&before[failed], &after[failed], Err(error))
    &&& forall|i: int| 0 <= i < failed ==> #[trigger] E::closes_to(&before[i], &after[i], Ok(()))
    &&& untouched_after(before, after, failed)
}

/// A fixed number of environments of one kind, acted on position by
/// position.
pub struct VecEnv<E> {
    envs: Vec<E>,
    _phantom: PhantomData<E>,
}

impl<E: Env> VecEnv<E> {
    /// Number of environments, as a specification value.
    pub closed spec fn spec_len(&self) -> nat {
        self.envs@.len()
    }

    /// The environments, in their order.
    pub closed spec fn envs(&self) -> Seq<E> {
        self.envs@
    }

    /// Makes `num_envs` environments, each by one call of `make_env`.
    pub fn new<F>(make_env: F, num_envs: usize) -> (vec_env: Self) where F: Fn() -> E
        requires
            call_requires(make_env, ()),
        ensures
            vec_env.spec_len() == num_envs,
            forall|i: int|
                0 <= i < num_envs ==> call_ensures(make_env, (), #[trigger] vec_env.envs()[i]),
    {
        let mut envs: Vec<E> = Vec::new();
        for made in 0..num_envs
            invariant
                call_requires(make_env, ()),
                envs@.len() == made,
                forall|i: int| 0 <= i < made ==> call_ensures(make_env, (), #[trigger] envs@[i]),
        {
            envs.push(make_env());
        }
        Self { envs, _phantom: PhantomData }
    }

    /// Number of environments.
    pub fn len(&self) -> (count: usize)
        ensures
            count == self.spec_len(),
    {
        self.envs.len()
    }

    /// Resets the environments in their order, up to the first that fails.
    ///
    /// If every environment returns an observation, the call succeeds with
    /// those observations, in the order of the environments. Otherwise it
    /// fails with the error of the first environment that failed, and the
    /// environments after that one are not touched.
    pub fn reset(&mut self) -> (observations: Result<Vec<E::Obs>, EnvError>)
        ensures
            final(self).spec_len() == old(self).spec_len(),
            observations matches Ok(first) ==> {
                &&& first@.len() == old(self).spec_len()
                &&& forall|i: int|
                    0 <= i < first@.len() ==> E::resets_to(
                        &old(self).envs()[i],
                        &final(self).envs()[i],
                        Ok(#[trigger] first@[i]),
                    )
            },
            observations matches Err(error) ==> exists|failed: int| #[trigger]
                reset_failed_at(old(self).envs(), final(self).envs(), failed, error),
            old(self).spec_len() == 0 ==> observations is Ok && final(self).envs() == old(
                self,
            ).envs(),
    {
        let mut observations: Vec<E::Obs> = Vec::new();
        let count = self.envs.len();
        let ghost mut done: int = 0;
        for i in 0..count
            invariant
                done == i,
                self.envs@.len() == count,
                count == old(self).spec_len(),
                observations@.len() == done,
                untouched_after(old(self).envs(), self.envs@, done - 1),
                forall|j: int|
                    0 <= j < done ==> E::resets_to(
                        &old(self).envs()[j],
                        &self.envs@[j],
                        Ok(#[trigger] observations@[j]),
                    ),
        {
            let ghost envs_before = self.envs@;
            let ghost seen = observations@;
            match self.envs[i].reset() {
                Ok(observation) => {
                    observations.push(observation);
                    proof {
                        assert(E::resets_to(
                            &old(self).envs()[done],
                            &self.envs@[done],
                            Ok(observations@[done]),
                        ));
                        assert forall|j: int| 0 <= j < done + 1 implies E::resets_to(
                            &old(self).envs()[j],
                            &self.envs@[j],
                            Ok(#[trigger] observations@[j]),
                        ) by {
                            if j < done {
                                assert(self.envs@[j] == envs_before[j]);
                                assert(observations@[j] == seen[j]);
                            }
                        }
                    }
                },
                Err(error) => {
                    proof {
                        assert forall|j: int| 0 <= j < done implies #[trigger] reset_succeeded_at(
                            old(self).envs(),
                            self.envs(),
                            j,
                        ) by {
                            assert(self.envs@[j] == envs_before[j]);
                            assert(E::resets_to(
                                &old(self).envs()[j],
                                &self.envs()[j],
                                Ok(seen[j]),
                            ));
                        }
                        assert(reset_failed_at(old(self).envs(), self.envs(), done, error));
                    }
                    let failure = Err(error);
                    assert(failure matches Err(e) && reset_failed_at(
                        old(self).envs(),
                        self.envs(),
                        done,
                        e,
                    ));
                    return failure;
                },
            }
            proof {
                done = done + 1;
            }
        }
        assert(count == 0 ==> self.envs@ =~= old(self).envs());
        Ok(observations)
    }

    /// Applies one action to each environment, in their order, up to the
    /// first that fails.
    ///
    /// There must be one action per environment; otherwise nothing is
    /// stepped and the call fails. If every environment returns an outcome,
    /// the call succeeds with those outcomes, outcome `i` being what
    /// environment `i` returned for action `i`. Otherwise it fails with the
    /// error of the first environment that failed, and the environments
    /// after that one are not touched.
    pub fn step(&mut self, actions: Vec<E::Act>) -> (outcomes: Result<
        Vec<(E::Obs, Reward, bool, E::Info)>,
        EnvError,
    >)
        ensures
            final(self).spec_len() == old(self).spec_len(),
            actions@.len() != old(self).spec_len() ==> (outcomes matches Err(
                EnvError::EnvError(detail),
            ) && detail@ == "Action count doesn't match environment count"@ && final(self).envs()
                == old(self).envs()),
            outcomes matches Ok(stepped) ==> {
                &&& actions@.len() == old(self).spec_len()
                &&& stepped@.len() == old(self).spec_len()
                &&& forall|i: int|
                    0 <= i < stepped@.len() ==> E::steps_to(
                        &old(self).envs()[i],
                        actions@[i],
                        &final(self).envs()[i],
                        Ok(#[trigger] stepped@[i]),
                    )
            },
            actions@.len() == old(self).spec_len() ==> (outcomes matches Err(error)
                ==> exists|failed: int| #[trigger]
                step_failed_at(old(self).envs(), actions@, final(self).envs(), failed, error)),
    {
        if actions.len() != self.envs.len() {
            return Err(
                EnvError::EnvError("Action count doesn't match environment count".to_string()),
            );
        }
        let mut outcomes: Vec<(E::Obs, Reward, bool, E::Info)> = Vec::new();
        let count = self.envs.len();
        let mut i: usize = 0;
        let ghost mut done: int = 0;
        for action in it: actions
            invariant
                self.envs@.len() == count,
                count == old(self).spec_len(),
                it.seq() == actions@,
                actions@.len() == count,
                i == it.index(),
                done == i,
                outcomes@.len() == done,
                untouched_after(old(self).envs(), self.envs@, done - 1),
                forall|j: int|
                    0 <= j < done ==> E::steps_to(
                        &old(self).envs()[j],
                        actions@[j],
                        &self.envs@[j],
                        Ok(#[trigger] outcomes@[j]),
                    ),
        {
            let ghost envs_before = self.envs@;
            let ghost seen = outcomes@;
            assert(action == actions@[done]);
            match self.envs[i].step(action) {
                Ok(outcome) => {
                    outcomes.push(outcome);
                    proof {
                        assert(E::steps_to(
                            &old(self).envs()[done],
                            actions@[done],
                            &self.envs@[done],
                            Ok(outcomes@[done]),
                        ));
                        assert forall|j: int| 0 <= j < done + 1 implies E::steps_to(
                            &old(self).envs()[j],
                            actions@[j],
                            &self.envs@[j],
                            Ok(#[trigger] outcomes@[j]),
                        ) by {
                            if j < done {
                                assert(self.envs@[j] == envs_before[j]);
                                assert(outcomes@[j] == seen[j]);
                            }
                        }
                    }
                },
                Err(error) => {
                    proof {
                        assert forall|j: int| 0 <= j < done implies #[trigger] step_succeeded_at(
                            old(self).envs(),
                            actions@,
                            self.envs(),
                            j,
                        ) by {
                            assert(self.envs@[j] == envs_before[j]);
                            assert(E::steps_to(
                                &old(self).envs()[j],
                                actions@[j],
                                &self.envs()[j],
                                Ok(seen[j]),
                            ));
                        }
                        assert(step_failed_at(
                            old(self).envs(),
                            actions@,
                            self.envs(),
                            done,
                            error,
                        ));
                    }
                    let failure = Err(error);
                    assert(failure matches Err(e) && step_failed_at(
                        old(self).envs(),
                        actions@,
                        self.envs(),
                        done,
                        e,
                    ));
                    return failure;
                },
            }
            i = i + 1;
            proof {
                done = done + 1;
            }
        }
        Ok(outcomes)
    }

    /// Closes the environments in their order, up to the first that fails.
    ///
    /// If every environment closes, the call succeeds. Otherwise it fails
    /// with the error of the first environment that failed, and the
    /// environments after that one are not touched.
    pub fn close(&mut self) -> (closed: Result<(), EnvError>)
        ensures
            final(self).spec_len() == old(self).spec_len(),
            closed is Ok ==> forall|i: int|
                0 <= i < old(self).spec_len() ==> #[trigger] E::closes_to(
                    &old(self).envs()[i],
                    &final(self).envs()[i],
                    Ok(()),
                ),
            closed matches Err(error) ==> exists|failed: int| #[trigger]
                close_failed_at(old(self).envs(), final(self).envs(), failed, error),
            old(self).spec_len() == 0 ==> closed is Ok && final(self).envs() == old(self).envs(),
    {
        let count = self.envs.len();
        let ghost mut done: int = 0;
        for i in 0..count
            invariant
                done == i,
                self.envs@.len() == count,
                count == old(self).spec_len(),
                untouched_after(old(self).envs(), self.envs@, done - 1),
                forall|j: int|
                    0 <= j < done ==> #[trigger] E::closes_to(
                        &old(self).envs()[j],
                        &self.envs@[j],
                        Ok(()),
                    ),
        {
            let ghost envs_before = self.envs@;
            let result = self.envs[i].close();
            let ghost answered = result;
            assert(E::closes_to(&old(self).envs()[done], &self.envs@[done], answered));
            match result {
                Ok(()) => {
                    proof {
                        assert(answered is Ok);
                        assert(answered->Ok_0 == ());
                        assert(answered == Ok::<(), EnvError>(()));
                        assert forall|j: int| 0 <= j < done + 1 implies #[trigger] E::closes_to(
                            &old(self).envs()[j],
                            &self.envs@[j],
                            Ok(()),
                        ) by {
                            if j < done {
                                assert(self.envs@[j] == envs_before[j]);
                            }
                        }
                    }
                },
                Err(error) => {
                    proof {
                        assert forall|j: int| 0 <= j < done implies #[trigger] E::closes_to(
                            &old(self).envs()[j],
                            &self.envs()[j],
                            Ok(()),
                        ) by {
                            assert(self.envs@[j] == envs_before[j]);
                        }
                        assert(close_failed_at(old(self).envs(), self.envs(), done, error));
                    }
                    let failure = Err(error);
                    assert(failure matches Err(e) && close_failed_at(
                        old(self).envs(),
                        self.envs(),
                        done,
                        e,
                    ));
                    return failure;
                },
            }
            proof {
                done = done + 1;
            }
        }
        assert(count == 0 ==> self.envs@ =~= old(self).envs());
        Ok(())
    }
}

} // verus!
