//! The fan-out router: shards a request across its backends and puts the
//! answers back in request order.

use std::collections::HashMap;
use vstd::prelude::*;

use crate::inference::assembly::{
    gather, gathered_input, indices_within, no_position_twice, scatter, scatter_groups,
    some_list_names,
};
use crate::inference::batching::{
    batch_end, batch_start, even_batches, is_dispatched, is_even_tiling, lemma_even_tiling_covers,
    span,
};
use crate::inference::outcomes::{
    all_succeeded, collect_outputs, is_first_failure, merge_outputs, responses_of, stop_reasons_of,
    successes,
};
use crate::inference::routing::{
    engine_group, engine_group_upto, engine_index, engine_index_of, is_trajectory_grouping,
    lemma_engine_group_members, lemma_engine_group_step, lemma_trajectory_grouping_covers,
};
use crate::inference::types::{
    Conversation, InferenceEngineInput, InferenceEngineInputView, InferenceEngineOutput,
    InferenceError, InferenceErrorView, StopReason, StopReasonView,
};
use vstd::string::StringExecFns;

verus! {

/// A router over an ordered, non-empty and fixed list of backend engines.
///
/// The router decides which backend gets which part of a request and how the
/// answers are reassembled; talking to a backend is left to the caller, who
/// owns the suspension points.
pub struct InferenceEngineClient<E> {
    engines: Vec<E>,
}

/// How the items of a request were assigned to backends.
#[derive(Clone, Copy, Debug, PartialEq, Eq)]
pub enum Routing {
    /// Each item went to the backend that serves its trajectory.
    ByTrajectory,
    /// The items were cut into contiguous slices, one per backend.
    EvenBatches,
}

/// One sub-request and the backend it goes to.
#[derive(Debug, PartialEq)]
pub struct EngineDispatch {
    pub engine_index: usize,
    pub input: InferenceEngineInput,
}

/// What one `generate` call asks of the backends.
///
/// Sub-request `k` goes to backend `dispatches[k].engine_index` and holds
/// the request items at the positions `indices_lists[k]`, in that order. All
/// sub-requests may be sent at once; their answers are handed to
/// [`InferenceEngineClient::finish_generate`] in the order of `dispatches`.
#[derive(Debug, PartialEq)]
pub struct GeneratePlan {
    pub routing: Routing,
    pub dispatches: Vec<EngineDispatch>,
    pub indices_lists: Vec<Vec<usize>>,
    pub input_length: usize,
}

impl GeneratePlan {
    /// There is one list of positions per sub-request.
    pub open spec fn wf(&self) -> bool {
        self.dispatches@.len() == self.indices_lists@.len()
    }

    /// The lists of positions of the sub-requests.
    pub open spec fn lists(&self) -> Seq<Seq<usize>> {
        self.indices_lists.deep_view()
    }

    /// Every position of the request is named by exactly one sub-request,
    /// exactly once.
    pub open spec fn covers_request(&self) -> bool {
        &&& no_position_twice(self.lists(), self.lists().len())
        &&& forall|k: int|
            0 <= k < self.lists().len() ==> indices_within(
                #[trigger] self.lists()[k],
                self.input_length as nat,
            )
        &&& forall|position: int|
            0 <= position < self.input_length ==> #[trigger] some_list_names(
                self.lists(),
                position,
            )
    }

    /// Each sub-request holds the items of `input` at its positions, the
    /// sampling configuration of `input`, and no trajectory identifiers.
    pub open spec fn carries(&self, input: InferenceEngineInputView) -> bool {
        forall|k: int|
            0 <= k < self.dispatches@.len() ==> (#[trigger] self.dispatches@[k]).input.deep_view()
                == gathered_input(input, self.lists()[k], input.prompts is Some)
    }

    /// The plan lists, in backend order, one slice for each backend that
    /// even batching gives one.
    pub open spec fn is_even_batching(&self, num_engines: nat) -> bool {
        &&& is_even_tiling(self.lists(), self.input_length as nat, num_engines)
        &&& forall|k: int|
            0 <= k < self.dispatches@.len() ==> (#[trigger] self.dispatches@[k]).engine_index == k
    }

    /// The backend of each sub-request, in the order of the sub-requests.
    pub open spec fn engines(&self) -> Seq<usize> {
        Seq::new(self.dispatches@.len(), |k: int| self.dispatches@[k].engine_index)
    }

    /// The plan lists, in backend order, one non-empty group for each
    /// backend that serves the trajectory of at least one item.
    pub open spec fn is_trajectory_routing(
        &self,
        trajectory_ids: Seq<Seq<char>>,
        num_engines: nat,
    ) -> bool {
        &&& is_trajectory_grouping(self.lists(), self.engines(), trajectory_ids, num_engines)
        &&& forall|k: int|
            0 <= k < self.dispatches@.len() ==> {
                &&& (#[trigger] self.dispatches@[k]).engine_index < num_engines
                &&& self.lists()[k].len() > 0
            }
        &&& forall|k: int, l: int|
            0 <= k < l < self.dispatches@.len() ==> (#[trigger] self.dispatches@[k]).engine_index
                < (#[trigger] self.dispatches@[l]).engine_index
    }
}

impl<E> View for InferenceEngineClient<E> {
    type V = Seq<E>;

    closed spec fn view(&self) -> Seq<E> {
        self.engines@
    }
}

/// `text` reports that `ids_len` trajectory identifiers were given for
/// `input_len` request items, both counts in decimal.
pub open spec fn is_length_mismatch_text(text: Seq<char>, ids_len: nat, input_len: nat) -> bool {
    exists|ids_digits: String, input_digits: String|
        {
            &&& #[trigger] vstd::string::to_string_from_display_ensures::<usize>(
                &(ids_len as usize),
                ids_digits,
            )
            &&& #[trigger] vstd::string::to_string_from_display_ensures::<usize>(
                &(input_len as usize),
                input_digits,
            )
            &&& text == "trajectory_ids length ("@ + ids_digits@ + ") must match input length ("@
                + input_digits@ + ")"@
        }
}

/// `groups` holds, for the first `upto` positions of a request, one entry for
/// each backend that serves any of them: its positions in ascending order.
pub open spec fn is_engine_grouping_upto(
    groups: Map<usize, Vec<usize>>,
    trajectory_ids: Seq<Seq<char>>,
    num_engines: nat,
    upto: nat,
) -> bool {
    forall|engine: usize|
        {
            &&& #[trigger] groups.contains_key(engine) <==> engine_group_upto(
                trajectory_ids,
                num_engines,
                engine as nat,
                upto,
            ).len() > 0
            &&& groups.contains_key(engine) ==> groups[engine]@ == engine_group_upto(
                trajectory_ids,
                num_engines,
                engine as nat,
                upto,
            )
        }
}

/// `groups` holds one entry for each backend that serves any position of the
/// request: its positions in ascending order.
pub open spec fn is_engine_grouping(
    groups: Map<usize, Vec<usize>>,
    trajectory_ids: Seq<Seq<char>>,
    num_engines: nat,
) -> bool {
    is_engine_grouping_upto(groups, trajectory_ids, num_engines, trajectory_ids.len())
}

/// The response of a position that no sub-answer has filled.
pub open spec fn unset_responses(len: nat) -> Seq<Seq<char>> {
    Seq::new(len, |i: int| Seq::<char>::empty())
}

/// The stop reason of a position that no sub-answer has filled.
pub open spec fn unset_stop_reasons(len: nat) -> Seq<StopReasonView> {
    Seq::new(len, |i: int| StopReasonView::Other("unset"@))
}

/// Sub-answer `g` can be written back through index list `g`, for each of
/// the first `pairs` groups: it answers every item of the list, and every
/// index addresses a position of the request.
pub open spec fn answers_fit(
    outputs: Seq<InferenceEngineOutput>,
    lists: Seq<Seq<usize>>,
    input_length: nat,
    pairs: nat,
) -> bool {
    forall|g: int|
        0 <= g < pairs ==> {
            &&& indices_within(#[trigger] lists[g], input_length)
            &&& lists[g].len() <= outputs[g].responses@.len()
            &&& lists[g].len() <= outputs[g].stop_reasons@.len()
        }
}

impl<E> InferenceEngineClient<E> {
    #[verifier::type_invariant]
    spec fn has_a_backend(self) -> bool {
        self.engines@.len() > 0
    }

    /// Builds a router over `engines`; a router without backends does not
    /// exist.
    pub fn new(engines: Vec<E>) -> (client: Result<Self, InferenceError>)
        ensures
            engines@.len() == 0 <==> client is Err,
            client matches Ok(router) ==> router@ == engines@,
            client matches Err(error) ==> error.deep_view() == InferenceErrorView::InvalidInput(
                "Must provide at least one engine"@,
            ),
    {
        if engines.len() == 0 {
            return Err(InferenceError::InvalidInput("Must provide at least one engine".to_string()));
        }
        Ok(InferenceEngineClient { engines })
    }

    /// Number of backends; never zero.
    pub fn num_engines(&self) -> (count: usize)
        ensures
            count == self@.len(),
            count > 0,
    {
        proof {
            use_type_invariant(self);
        }
        self.engines.len()
    }

    /// The backends, in the order they were given.
    pub fn engines(&self) -> (engines: &Vec<E>)
        ensures
            engines@ == self@,
            engines@.len() > 0,
    {
        proof {
            use_type_invariant(self);
        }
        &self.engines
    }

    /// The backend that serves `trajectory_id`: the same one for as long as
    /// the number of backends stays the same.
    pub fn calculate_engine_index(&self, trajectory_id: &str) -> (index: usize)
        ensures
            index == engine_index(trajectory_id@, self@.len()),
            index < self@.len(),
    {
        engine_index_of(trajectory_id, self.num_engines())
    }

    /// Tells which of the two input shapes a request has, and how many items.
    ///
    /// Succeeds exactly when one shape is present and the other is not; the
    /// flag is `true` for structured prompts and `false` for token sequences.
    pub fn validate_and_classify_input(&self, input: &InferenceEngineInput) -> (shape: Result<
        (usize, bool),
        InferenceError,
    >)
        ensures
            shape is Ok <==> (input.prompts is Some) != (input.prompt_token_ids is Some),
            shape matches Ok((length, is_prompts)) ==> {
                &&& is_prompts == (input.prompts is Some)
                &&& length == input.spec_len()
            },
            shape matches Err(error) ==> error.deep_view() == InferenceErrorView::InvalidInput(
                "Invalid input state in trajectory routing"@,
            ),
    {
        match (&input.prompts, &input.prompt_token_ids) {
            (Some(prompts), None) => Ok((prompts.len(), true)),
            (None, Some(tokens)) => Ok((tokens.len(), false)),
            _ => Err(
                InferenceError::InvalidInput(
                    "Invalid input state in trajectory routing".to_string(),
                ),
            ),
        }
    }

    /// Checks that there is one trajectory identifier per request item.
    pub fn validate_trajectory_length(
        &self,
        trajectory_ids: &[String],
        input_length: usize,
    ) -> (checked: Result<(), InferenceError>)
        ensures
            checked is Ok <==> trajectory_ids@.len() == input_length,
            checked matches Err(error) ==> {
                &&& error matches InferenceError::InvalidInput(detail)
                &&& is_length_mismatch_text(detail@, trajectory_ids@.len(), input_length as nat)
            },
    {
        if trajectory_ids.len() != input_length {
            let ids_digits = trajectory_ids.len().to_string();
            let input_digits = input_length.to_string();
            let detail = "trajectory_ids length (".to_string().concat(ids_digits.as_str()).concat(
                ") must match input length (",
            ).concat(input_digits.as_str()).concat(")");
            proof {
                let ids_len = trajectory_ids@.len();
                assert(vstd::string::to_string_from_display_ensures::<usize>(
                    &(ids_len as usize),
                    ids_digits,
                ));
                assert(vstd::string::to_string_from_display_ensures::<usize>(
                    &(input_length as nat as usize),
                    input_digits,
                ));
            }
            return Err(InferenceError::InvalidInput(detail));
        }
        Ok(())
    }

    /// Groups the positions of a request by the backend that serves their
    /// trajectory.
    ///
    /// The map has an entry for exactly the backends that serve at least one
    /// position, and each entry lists its positions in ascending order.
    pub fn group_by_engine(&self, trajectory_ids: &[String]) -> (groups: HashMap<
        usize,
        Vec<usize>,
    >)
        ensures
            is_engine_grouping(groups@, trajectory_ids.deep_view(), self@.len()),
    {
        let num_engines = self.num_engines();
        let ghost ids = trajectory_ids.deep_view();
        let mut groups: HashMap<usize, Vec<usize>> = HashMap::new();
        proof {
            assert forall|engine: usize|
                engine_group_upto(ids, num_engines as nat, engine as nat, 0)
                    == Seq::<usize>::empty() by {
                lemma_engine_group_step(ids, num_engines as nat, engine as nat, 0);
            }
        }
        for position in 0..trajectory_ids.len()
            invariant
                num_engines == self@.len(),
                num_engines > 0,
                ids == trajectory_ids.deep_view(),
                is_engine_grouping_upto(groups@, ids, num_engines as nat, position as nat),
        {
            let engine = engine_index_of(trajectory_ids[position].as_str(), num_engines);
            let ghost before = groups@;
            let mut group = match groups.remove(&engine) {
                Some(group) => group,
                None => Vec::new(),
            };
            group.push(position);
            groups.insert(engine, group);
            proof {
                assert(ids[position as int] == trajectory_ids[position as int]@);
                assert forall|other: usize|
                    (#[trigger] groups@.contains_key(other) <==> engine_group_upto(
                        ids,
                        num_engines as nat,
                        other as nat,
                        (position + 1) as nat,
                    ).len() > 0) && (groups@.contains_key(other) ==> groups@[other]@
                        == engine_group_upto(
                        ids,
                        num_engines as nat,
                        other as nat,
                        (position + 1) as nat,
                    )) by {
                    lemma_engine_group_step(
                        ids,
                        num_engines as nat,
                        other as nat,
                        position as nat,
                    );
                    assert(before.contains_key(other) <==> engine_group_upto(
                        ids,
                        num_engines as nat,
                        other as nat,
                        position as nat,
                    ).len() > 0);
                }
            }
        }
        groups
    }

    /// Builds the sub-request for the items at `indices`, in that order.
    ///
    /// `is_prompts` names the shape to read; that shape must be present and
    /// every index must address one of its items.
    pub fn build_engine_input(
        &self,
        indices: &[usize],
        input: &InferenceEngineInput,
        is_prompts: bool,
    ) -> (sub_input: Result<InferenceEngineInput, InferenceError>)
        requires
            is_prompts ==> input.prompts is Some && indices_within(
                indices@,
                input.prompts->Some_0@.len(),
            ),
            !is_prompts ==> input.prompt_token_ids is Some && indices_within(
                indices@,
                input.prompt_token_ids->Some_0@.len(),
            ),
        ensures
            sub_input matches Ok(sub) && sub.deep_view() == gathered_input(
                input.deep_view(),
                indices@,
                is_prompts,
            ),
    {
        if is_prompts {
            let prompts = input.prompts.as_ref().unwrap();
            let mut group_prompts: Vec<Conversation> = Vec::new();
            for j in 0..indices.len()
                invariant
                    indices_within(indices@, prompts@.len()),
                    group_prompts@.len() == j,
                    forall|k: int|
                        0 <= k < j ==> (#[trigger] group_prompts@[k]).deep_view()
                            == prompts@[indices@[k] as int].deep_view(),
            {
                let prompt = prompts[indices[j]].clone();
                assert(prompt.deep_view() =~= prompts@[indices@[j as int] as int].deep_view());
                group_prompts.push(prompt);
            }
            let sub = InferenceEngineInput {
                prompts: Some(group_prompts),
                prompt_token_ids: None,
                sampling_params: input.sampling_params.clone(),
                trajectory_ids: None,
            };
            assert(sub.prompts.deep_view()->Some_0 =~= gather(
                input.prompts.deep_view()->Some_0,
                indices@,
            ));
            Ok(sub)
        } else {
            let token_ids = input.prompt_token_ids.as_ref().unwrap();
            let mut group_token_ids: Vec<Vec<i32>> = Vec::new();
            for j in 0..indices.len()
                invariant
                    indices_within(indices@, token_ids@.len()),
                    group_token_ids@.len() == j,
                    forall|k: int|
                        0 <= k < j ==> (#[trigger] group_token_ids@[k]).deep_view()
                            == token_ids@[indices@[k] as int].deep_view(),
            {
                let tokens = token_ids[indices[j]].clone();
                assert(tokens.deep_view() =~= token_ids@[indices@[j as int] as int].deep_view());
                group_token_ids.push(tokens);
            }
            let sub = InferenceEngineInput {
                prompts: None,
                prompt_token_ids: Some(group_token_ids),
                sampling_params: input.sampling_params.clone(),
                trajectory_ids: None,
            };
            assert(sub.prompt_token_ids.deep_view()->Some_0 =~= gather(
                input.prompt_token_ids.deep_view()->Some_0,
                indices@,
            ));
            Ok(sub)
        }
    }

    /// Puts the sub-answers back at the positions their items came from.
    ///
    /// Sub-answer `g` answers the items listed in `indices_lists[g]`; its
    /// `j`-th response and stop reason go to position `indices_lists[g][j]`.
    /// Positions that no list names keep an empty response and the stop
    /// reason `Other("unset")`.
    pub fn reconstruct_output(
        &self,
        engine_outputs: Vec<InferenceEngineOutput>,
        indices_lists: Vec<Vec<usize>>,
        input_length: usize,
    ) -> (output: Result<InferenceEngineOutput, InferenceError>)
        requires
            answers_fit(
                engine_outputs@,
                indices_lists.deep_view(),
                input_length as nat,
                vstd::math::min(engine_outputs@.len() as int, indices_lists@.len() as int) as nat,
            ),
        ensures
            output matches Ok(merged) && {
                let pairs = vstd::math::min(
                    engine_outputs@.len() as int,
                    indices_lists@.len() as int,
                ) as nat;
                &&& merged.responses.deep_view() == scatter_groups(
                    unset_responses(input_length as nat),
                    indices_lists.deep_view(),
                    responses_of(engine_outputs@),
                    pairs,
                )
                &&& merged.stop_reasons.deep_view() == scatter_groups(
                    unset_stop_reasons(input_length as nat),
                    indices_lists.deep_view(),
                    stop_reasons_of(engine_outputs@),
                    pairs,
                )
            },
    {
        let mut responses: Vec<String> = Vec::new();
        let mut stop_reasons: Vec<StopReason> = Vec::new();
        for position in 0..input_length
            invariant
                responses@.len() == position,
                stop_reasons@.len() == position,
                forall|i: int| 0 <= i < position ==> (#[trigger] responses@[i])@ == Seq::<char>::empty(),
                forall|i: int|
                    0 <= i < position ==> (#[trigger] stop_reasons@[i]).deep_view()
                        == StopReasonView::Other("unset"@),
        {
            responses.push(String::new());
            stop_reasons.push(StopReason::Other("unset".to_string()));
        }
        assert(responses.deep_view() =~= unset_responses(input_length as nat));
        assert(stop_reasons.deep_view() =~= unset_stop_reasons(input_length as nat));
        let pairs = if engine_outputs.len() < indices_lists.len() {
            engine_outputs.len()
        } else {
            indices_lists.len()
        };
        let ghost lists = indices_lists.deep_view();
        let ghost texts = responses_of(engine_outputs@);
        let ghost reasons = stop_reasons_of(engine_outputs@);
        for g in 0..pairs
            invariant
                pairs <= engine_outputs@.len(),
                pairs <= indices_lists@.len(),
                lists == indices_lists.deep_view(),
                texts == responses_of(engine_outputs@),
                reasons == stop_reasons_of(engine_outputs@),
                answers_fit(engine_outputs@, lists, input_length as nat, pairs as nat),
                responses@.len() == input_length,
                stop_reasons@.len() == input_length,
                responses.deep_view() == scatter_groups(
                    unset_responses(input_length as nat),
                    lists,
                    texts,
                    g as nat,
                ),
                stop_reasons.deep_view() == scatter_groups(
                    unset_stop_reasons(input_length as nat),
                    lists,
                    reasons,
                    g as nat,
                ),
        {
            let indices = &indices_lists[g];
            let output = &engine_outputs[g];
            let ghost texts_before = responses.deep_view();
            let ghost reasons_before = stop_reasons.deep_view();
            assert(lists[g as int] == indices@);
            assert(indices_within(lists[g as int], input_length as nat));
            for local in 0..indices.len()
                invariant
                    0 <= g < lists.len(),
                    indices@ == lists[g as int],
                    indices_within(indices@, input_length as nat),
                    indices@.len() <= output.responses@.len(),
                    indices@.len() <= output.stop_reasons@.len(),
                    responses@.len() == input_length,
                    stop_reasons@.len() == input_length,
                    responses.deep_view() == scatter(
                        texts_before,
                        indices@,
                        output.responses.deep_view(),
                        local as nat,
                    ),
                    stop_reasons.deep_view() == scatter(
                        reasons_before,
                        indices@,
                        output.stop_reasons.deep_view(),
                        local as nat,
                    ),
            {
                let target = indices[local];
                let ghost texts_so_far = responses.deep_view();
                let ghost reasons_so_far = stop_reasons.deep_view();
                responses[target] = output.responses[local].clone();
                stop_reasons[target] = output.stop_reasons[local].clone();
                assert(responses.deep_view() =~= texts_so_far.update(
                    target as int,
                    output.responses.deep_view()[local as int],
                ));
                assert(stop_reasons.deep_view() =~= reasons_so_far.update(
                    target as int,
                    output.stop_reasons.deep_view()[local as int],
                ));
            }
            assert(texts[g as int] == output.responses.deep_view());
            assert(reasons[g as int] == output.stop_reasons.deep_view());
        }
        Ok(InferenceEngineOutput { responses, stop_reasons })
    }

    /// Plans even batching: one contiguous slice of the request per backend.
    ///
    /// With `E` backends and `N` items every slice holds `ceil(N / E)` items,
    /// but for the last, which may hold fewer; backends whose slice would
    /// start beyond the request are left out.
    pub fn plan_batched(&self, input: &InferenceEngineInput) -> (plan: Result<
        GeneratePlan,
        InferenceError,
    >)
        ensures
            plan is Ok <==> (input.prompts is Some) != (input.prompt_token_ids is Some),
            plan matches Err(error) ==> error.deep_view() == InferenceErrorView::InvalidInput(
                "Invalid input state in generate_batched"@,
            ),
            plan matches Ok(planned) ==> {
                &&& planned.routing == Routing::EvenBatches
                &&& planned.input_length == input.spec_len()
                &&& planned.wf()
                &&& planned.is_even_batching(self@.len())
                &&& planned.carries(input.deep_view())
                &&& planned.covers_request()
            },
    {
        let (input_length, is_prompts) = match (&input.prompts, &input.prompt_token_ids) {
            (Some(prompts), None) => (prompts.len(), true),
            (None, Some(token_ids)) => (token_ids.len(), false),
            _ => {
                return Err(
                    InferenceError::InvalidInput(
                        "Invalid input state in generate_batched".to_string(),
                    ),
                );
            },
        };
        let num_engines = self.num_engines();
        let batches = even_batches(input_length, num_engines);
        let mut dispatches: Vec<EngineDispatch> = Vec::new();
        let mut indices_lists: Vec<Vec<usize>> = Vec::new();
        for k in 0..batches.len()
            invariant
                num_engines == self@.len(),
                num_engines > 0,
                is_prompts == (input.prompts is Some),
                is_prompts != (input.prompt_token_ids is Some),
                input_length == input.spec_len(),
                forall|engine: nat|
                    #[trigger] is_dispatched(engine, input_length as nat, num_engines as nat)
                        <==> engine < batches@.len(),
                forall|i: int|
                    0 <= i < batches@.len() ==> {
                        &&& (#[trigger] batches@[i]).engine_index == i
                        &&& batches@[i].start == batch_start(
                            i as nat,
                            input_length as nat,
                            num_engines as nat,
                        )
                        &&& batches@[i].end == batch_end(
                            i as nat,
                            input_length as nat,
                            num_engines as nat,
                        )
                    },
                dispatches@.len() == k,
                indices_lists@.len() == k,
                forall|i: int|
                    0 <= i < k ==> {
                        &&& (#[trigger] dispatches@[i]).engine_index == i
                        &&& dispatches@[i].input.deep_view() == gathered_input(
                            input.deep_view(),
                            indices_lists@[i]@,
                            is_prompts,
                        )
                    },
                forall|i: int|
                    0 <= i < k ==> (#[trigger] indices_lists@[i])@ == span(
                        batch_start(i as nat, input_length as nat, num_engines as nat),
                        batch_end(i as nat, input_length as nat, num_engines as nat),
                    ),
        {
            let batch = batches[k];
            proof {
                assert(is_dispatched(k as nat, input_length as nat, num_engines as nat));
                crate::inference::batching::lemma_batches_tile(
                    input_length as nat,
                    num_engines as nat,
                    k as nat,
                );
            }
            let mut indices: Vec<usize> = Vec::new();
            for position in batch.start..batch.end
                invariant
                    batch.start <= batch.end <= input_length,
                    indices@ == span(batch.start as nat, position as nat),
            {
                indices.push(position);
                assert(indices@ =~= span(batch.start as nat, (position + 1) as nat));
            }
            assert(indices_within(indices@, input_length as nat));
            let sub_input = match self.build_engine_input(indices.as_slice(), input, is_prompts) {
                Ok(sub_input) => sub_input,
                Err(error) => {
                    return Err(error);
                },
            };
            dispatches.push(EngineDispatch { engine_index: batch.engine_index, input: sub_input });
            indices_lists.push(indices);
        }
        let plan = GeneratePlan {
            routing: Routing::EvenBatches,
            dispatches,
            indices_lists,
            input_length,
        };
        proof {
            assert forall|k: int| 0 <= k < plan.lists().len() implies #[trigger] plan.lists()[k]
                == span(
                batch_start(k as nat, input_length as nat, num_engines as nat),
                batch_end(k as nat, input_length as nat, num_engines as nat),
            ) by {
                assert(plan.lists()[k] == plan.indices_lists@[k]@);
            }
            lemma_even_tiling_covers(plan.lists(), input_length as nat, num_engines as nat);
            assert forall|k: int| 0 <= k < plan.dispatches@.len() implies (
            #[trigger] plan.dispatches@[k]).input.deep_view() == gathered_input(
                input.deep_view(),
                plan.lists()[k],
                input.deep_view().prompts is Some,
            ) by {
                assert(plan.lists()[k] == plan.indices_lists@[k]@);
            }
        }
        Ok(plan)
    }

    /// Plans trajectory routing: every item goes to the backend that serves
    /// its trajectory, so that a trajectory stays on one backend from call
    /// to call.
    pub fn plan_trajectory_routing(&self, input: &InferenceEngineInput) -> (plan: Result<
        GeneratePlan,
        InferenceError,
    >)
        ensures
            plan is Ok <==> {
                &&& input.trajectory_ids is Some
                &&& (input.prompts is Some) != (input.prompt_token_ids is Some)
                &&& input.trajectory_ids->Some_0@.len() == input.spec_len()
            },
            input.trajectory_ids is None ==> (plan matches Err(error) && error.deep_view()
                == InferenceErrorView::InvalidInput(
                "trajectory_ids required for trajectory routing"@,
            )),
            input.trajectory_ids is Some && (input.prompts is Some) == (input.prompt_token_ids
                is Some) ==> (plan matches Err(error) && error.deep_view()
                == InferenceErrorView::InvalidInput("Invalid input state in trajectory routing"@)),
            input.trajectory_ids is Some && (input.prompts is Some) != (input.prompt_token_ids
                is Some) && input.trajectory_ids->Some_0@.len() != input.spec_len() ==> (
            plan matches Err(InferenceError::InvalidInput(detail)) && is_length_mismatch_text(
                detail@,
                input.trajectory_ids->Some_0@.len(),
                input.spec_len(),
            )),
            plan matches Ok(planned) ==> {
                &&& planned.routing == Routing::ByTrajectory
                &&& planned.input_length == input.spec_len()
                &&& planned.wf()
                &&& planned.is_trajectory_routing(
                    input.trajectory_ids->Some_0.deep_view(),
                    self@.len(),
                )
                &&& planned.carries(input.deep_view())
                &&& planned.covers_request()
            },
    {
        let trajectory_ids = match &input.trajectory_ids {
            Some(trajectory_ids) => trajectory_ids,
            None => {
                return Err(
                    InferenceError::InvalidInput(
                        "trajectory_ids required for trajectory routing".to_string(),
                    ),
                );
            },
        };
        let (input_length, is_prompts) = match self.validate_and_classify_input(input) {
            Ok(shape) => shape,
            Err(error) => {
                return Err(error);
            },
        };
        let ids_slice = trajectory_ids.as_slice();
        match self.validate_trajectory_length(ids_slice, input_length) {
            Ok(()) => {},
            Err(error) => {
                return Err(error);
            },
        }
        let num_engines = self.num_engines();
        let ghost ids = trajectory_ids.deep_view();
        assert(ids_slice.deep_view() =~= ids);
        let mut groups = self.group_by_engine(ids_slice);
        let ghost grouped = groups@;
        let mut dispatches: Vec<EngineDispatch> = Vec::new();
        let mut indices_lists: Vec<Vec<usize>> = Vec::new();
        for engine in 0..num_engines
            invariant
                num_engines == self@.len(),
                num_engines > 0,
                is_prompts == (input.prompts is Some),
                is_prompts != (input.prompt_token_ids is Some),
                input_length == input.spec_len(),
                ids.len() == input_length,
                is_engine_grouping(grouped, ids, num_engines as nat),
                forall|other: usize|
                    other >= engine ==> (#[trigger] groups@.contains_key(other)
                        <==> grouped.contains_key(other)),
                forall|other: usize|
                    other >= engine && #[trigger] groups@.contains_key(other) ==> groups@[other]
                        == grouped[other],
                dispatches@.len() == indices_lists@.len(),
                forall|k: int|
                    0 <= k < dispatches@.len() ==> {
                        &&& (#[trigger] dispatches@[k]).engine_index < engine
                        &&& indices_lists@[k]@ == engine_group(
                            ids,
                            num_engines as nat,
                            dispatches@[k].engine_index as nat,
                        )
                        &&& indices_lists@[k]@.len() > 0
                        &&& dispatches@[k].input.deep_view() == gathered_input(
                            input.deep_view(),
                            indices_lists@[k]@,
                            is_prompts,
                        )
                    },
                forall|k: int, l: int|
                    0 <= k < l < dispatches@.len() ==> (#[trigger] dispatches@[k]).engine_index < (
                    #[trigger] dispatches@[l]).engine_index,
                forall|other: usize|
                    other < engine && (#[trigger] engine_group(
                        ids,
                        num_engines as nat,
                        other as nat,
                    )).len() > 0 ==> exists|k: int|
                        0 <= k < dispatches@.len() && (#[trigger] dispatches@[k]).engine_index
                            == other,
        {
            let ghost planned_before = dispatches@;
            match groups.remove(&engine) {
                Some(indices) => {
                    proof {
                        assert(grouped.contains_key(engine));
                        assert(indices@ == engine_group(ids, num_engines as nat, engine as nat));
                        lemma_engine_group_members(
                            ids,
                            num_engines as nat,
                            engine as nat,
                            ids.len(),
                        );
                        assert(indices_within(indices@, input_length as nat));
                    }
                    let sub_input = match self.build_engine_input(
                        indices.as_slice(),
                        input,
                        is_prompts,
                    ) {
                        Ok(sub_input) => sub_input,
                        Err(error) => {
                            return Err(error);
                        },
                    };
                    dispatches.push(EngineDispatch { engine_index: engine, input: sub_input });
                    indices_lists.push(indices);
                    proof {
                        let last = dispatches@.len() - 1;
                        assert(dispatches@[last].engine_index == engine);
                        assert forall|other: usize|
                            other < engine + 1 && (#[trigger] engine_group(
                                ids,
                                num_engines as nat,
                                other as nat,
                            )).len() > 0 implies exists|k: int|
                            0 <= k < dispatches@.len() && (
                            #[trigger] dispatches@[k]).engine_index == other by {
                            if other < engine {
                                let k = choose|k: int|
                                    0 <= k < planned_before.len() && (
                                    #[trigger] planned_before[k]).engine_index == other;
                                assert(dispatches@[k].engine_index == other);
                            }
                        }
                    }
                },
                None => {
                    proof {
                        assert(!grouped.contains_key(engine));
                        assert(engine_group(ids, num_engines as nat, engine as nat).len() == 0);
                    }
                },
            }
        }
        let plan = GeneratePlan {
            routing: Routing::ByTrajectory,
            dispatches,
            indices_lists,
            input_length,
        };
        proof {
            assert forall|k: int| 0 <= k < plan.lists().len() implies #[trigger] plan.lists()[k]
                == engine_group(ids, num_engines as nat, plan.engines()[k] as nat) by {
                assert(plan.lists()[k] == plan.indices_lists@[k]@);
                assert(plan.dispatches@[k].engine_index == plan.engines()[k]);
            }
            assert forall|k: int, l: int| 0 <= k < l < plan.engines().len() implies (
            #[trigger] plan.engines()[k]) != (#[trigger] plan.engines()[l]) by {
                assert(plan.dispatches@[k].engine_index < plan.dispatches@[l].engine_index);
            }
            assert forall|engine: usize|
                engine < num_engines && (#[trigger] engine_group(
                    ids,
                    num_engines as nat,
                    engine as nat,
                )).len() > 0 implies plan.engines().contains(engine) by {
                let k = choose|k: int|
                    0 <= k < plan.dispatches@.len() && (
                    #[trigger] plan.dispatches@[k]).engine_index == engine;
                assert(plan.engines()[k] == engine);
            }
            lemma_trajectory_grouping_covers(
                plan.lists(),
                plan.engines(),
                ids,
                num_engines as nat,
            );
            assert forall|k: int| 0 <= k < plan.dispatches@.len() implies {
                &&& (#[trigger] plan.dispatches@[k]).engine_index < num_engines
                &&& plan.lists()[k].len() > 0
                &&& plan.dispatches@[k].input.deep_view() == gathered_input(
                    input.deep_view(),
                    plan.lists()[k],
                    input.deep_view().prompts is Some,
                )
            } by {
                assert(plan.lists()[k] == plan.indices_lists@[k]@);
            }
        }
        Ok(plan)
    }

    /// Plans a `generate` call: checks the request and decides which backend
    /// gets which items.
    ///
    /// A request must have exactly one of the two input shapes. With
    /// trajectory identifiers, one per item, the items are routed by
    /// trajectory; without, they are batched evenly.
    pub fn plan_generate(&self, input: &InferenceEngineInput) -> (plan: Result<
        GeneratePlan,
        InferenceError,
    >)
        ensures
            plan is Ok <==> {
                &&& (input.prompts is Some) != (input.prompt_token_ids is Some)
                &&& input.trajectory_ids is Some ==> input.trajectory_ids->Some_0@.len()
                    == input.spec_len()
            },
            (input.prompts is Some) == (input.prompt_token_ids is Some) ==> (
            plan matches Err(error) && error.deep_view() == InferenceErrorView::InvalidInput(
                "Either prompts or prompt_token_ids must be provided, but not both"@,
            )),
            (input.prompts is Some) != (input.prompt_token_ids is Some) && input.trajectory_ids
                is Some && input.trajectory_ids->Some_0@.len() != input.spec_len() ==> (
            plan matches Err(InferenceError::InvalidInput(detail)) && is_length_mismatch_text(
                detail@,
                input.trajectory_ids->Some_0@.len(),
                input.spec_len(),
            )),
            plan matches Ok(planned) ==> {
                &&& planned.input_length == input.spec_len()
                &&& planned.wf()
                &&& planned.carries(input.deep_view())
                &&& planned.covers_request()
                &&& match input.trajectory_ids {
                    Some(trajectory_ids) => {
                        &&& planned.routing == Routing::ByTrajectory
                        &&& planned.is_trajectory_routing(
                            trajectory_ids.deep_view(),
                            self@.len(),
                        )
                    },
                    None => {
                        &&& planned.routing == Routing::EvenBatches
                        &&& planned.is_even_batching(self@.len())
                    },
                }
            },
    {
        match (&input.prompts, &input.prompt_token_ids) {
            (None, None) | (Some(_), Some(_)) => {
                return Err(
                    InferenceError::InvalidInput(
                        "Either prompts or prompt_token_ids must be provided, but not both".to_string(),
                    ),
                );
            },
            _ => {},
        }
        if input.trajectory_ids.is_some() {
            self.plan_trajectory_routing(input)
        } else {
            self.plan_batched(input)
        }
    }

    /// Tells whether sub-answer `g` can be written back through
    /// `indices_lists[g]`, for every `g` that both lists have: whether it
    /// answers each item of the list and every index addresses a position of
    /// the request.
    pub fn outputs_fit(
        &self,
        engine_outputs: &Vec<InferenceEngineOutput>,
        indices_lists: &Vec<Vec<usize>>,
        input_length: usize,
    ) -> (fit: bool)
        ensures
            fit == answers_fit(
                engine_outputs@,
                indices_lists.deep_view(),
                input_length as nat,
                vstd::math::min(engine_outputs@.len() as int, indices_lists@.len() as int) as nat,
            ),
    {
        let pairs = if engine_outputs.len() < indices_lists.len() {
            engine_outputs.len()
        } else {
            indices_lists.len()
        };
        let ghost lists = indices_lists.deep_view();
        for g in 0..pairs
            invariant
                pairs == vstd::math::min(
                    engine_outputs@.len() as int,
                    indices_lists@.len() as int,
                ),
                lists == indices_lists.deep_view(),
                answers_fit(engine_outputs@, lists, input_length as nat, g as nat),
        {
            let indices = &indices_lists[g];
            let output = &engine_outputs[g];
            assert(lists[g as int] == indices@);
            if indices.len() > output.responses.len() || indices.len()
                > output.stop_reasons.len() {
                assert(lists[g as int].len() > engine_outputs@[g as int].responses@.len()
                    || lists[g as int].len() > engine_outputs@[g as int].stop_reasons@.len());
                return false;
            }
            for j in 0..indices.len()
                invariant
                    0 <= g < pairs,
                    pairs == vstd::math::min(
                        engine_outputs@.len() as int,
                        indices_lists@.len() as int,
                    ),
                    lists == indices_lists.deep_view(),
                    indices@ == lists[g as int],
                    forall|k: int| 0 <= k < j ==> #[trigger] indices@[k] < input_length,
            {
                if indices[j] >= input_length {
                    assert(!indices_within(lists[g as int], input_length as nat));
                    return false;
                }
            }
        }
        true
    }

    /// Tells whether [`Self::finish_generate`] can take these answers: after
    /// even batching always; after trajectory routing, if no backend failed,
    /// when every answer can be written back through its list of positions.
    pub fn results_fit(
        &self,
        routing: Routing,
        indices_lists: &Vec<Vec<usize>>,
        input_length: usize,
        results: &Vec<Result<InferenceEngineOutput, InferenceError>>,
    ) -> (fit: bool)
        ensures
            fit == (routing == Routing::ByTrajectory && all_succeeded(results@) ==> answers_fit(
                successes(results@),
                indices_lists.deep_view(),
                input_length as nat,
                vstd::math::min(results@.len() as int, indices_lists@.len() as int) as nat,
            )),
    {
        match routing {
            Routing::EvenBatches => {
                return true;
            },
            Routing::ByTrajectory => {},
        }
        for at in 0..results.len()
            invariant
                routing == Routing::ByTrajectory,
                forall|i: int| 0 <= i < at ==> (#[trigger] results@[i]) is Ok,
        {
            match &results[at] {
                Ok(_) => {},
                Err(_) => {
                    return true;
                },
            }
        }
        let pairs = if results.len() < indices_lists.len() {
            results.len()
        } else {
            indices_lists.len()
        };
        let ghost lists = indices_lists.deep_view();
        let ghost outputs = successes(results@);
        for g in 0..pairs
            invariant
                routing == Routing::ByTrajectory,
                all_succeeded(results@),
                outputs == successes(results@),
                pairs == vstd::math::min(results@.len() as int, indices_lists@.len() as int),
                lists == indices_lists.deep_view(),
                answers_fit(outputs, lists, input_length as nat, g as nat),
        {
            let indices = &indices_lists[g];
            assert(lists[g as int] == indices@);
            match &results[g] {
                Ok(output) => {
                    assert(outputs[g as int] == *output);
                    if indices.len() > output.responses.len() || indices.len()
                        > output.stop_reasons.len() {
                        assert(lists[g as int].len() > outputs[g as int].responses@.len()
                            || lists[g as int].len() > outputs[g as int].stop_reasons@.len());
                        return false;
                    }
                },
                Err(_) => {},
            }
            for j in 0..indices.len()
                invariant
                    routing == Routing::ByTrajectory,
                    all_succeeded(results@),
                    outputs == successes(results@),
                    0 <= g < pairs,
                    pairs == vstd::math::min(
                        results@.len() as int,
                        indices_lists@.len() as int,
                    ),
                    lists == indices_lists.deep_view(),
                    indices@ == lists[g as int],
                    forall|k: int| 0 <= k < j ==> #[trigger] indices@[k] < input_length,
            {
                if indices[j] >= input_length {
                    assert(!indices_within(lists[g as int], input_length as nat));
                    return false;
                }
            }
        }
        true
    }

    /// Finishes a `generate` call from the answers of the backends, given in
    /// the order of the plan's sub-requests.
    ///
    /// If a backend failed, the call fails with the first failure in that
    /// order and all answers are discarded. Otherwise the answers are put in
    /// request order: concatenated after even batching, written back to the
    /// positions of their items after trajectory routing.
    pub fn finish_generate(
        &self,
        routing: Routing,
        indices_lists: Vec<Vec<usize>>,
        input_length: usize,
        results: Vec<Result<InferenceEngineOutput, InferenceError>>,
    ) -> (output: Result<InferenceEngineOutput, InferenceError>)
        requires
            routing == Routing::ByTrajectory && all_succeeded(results@) ==> answers_fit(
                successes(results@),
                indices_lists.deep_view(),
                input_length as nat,
                vstd::math::min(results@.len() as int, indices_lists@.len() as int) as nat,
            ),
        ensures
            forall|at: int|
                is_first_failure(results@, at) ==> output == Err::<
                    InferenceEngineOutput,
                    InferenceError,
                >(results@[at]->Err_0),
            output is Ok <==> all_succeeded(results@),
            output matches Ok(merged) ==> (match routing {
                Routing::EvenBatches => {
                    &&& merged.responses.deep_view() == responses_of(
                        successes(results@),
                    ).flatten()
                    &&& merged.stop_reasons.deep_view() == stop_reasons_of(
                        successes(results@),
                    ).flatten()
                },
                Routing::ByTrajectory => {
                    let pairs = vstd::math::min(
                        results@.len() as int,
                        indices_lists@.len() as int,
                    ) as nat;
                    &&& merged.responses.deep_view() == scatter_groups(
                        unset_responses(input_length as nat),
                        indices_lists.deep_view(),
                        responses_of(successes(results@)),
                        pairs,
                    )
                    &&& merged.stop_reasons.deep_view() == scatter_groups(
                        unset_stop_reasons(input_length as nat),
                        indices_lists.deep_view(),
                        stop_reasons_of(successes(results@)),
                        pairs,
                    )
                },
            }),
    {
        match routing {
            Routing::EvenBatches => merge_outputs(results),
            Routing::ByTrajectory => {
                let engine_outputs = match collect_outputs(results) {
                    Ok(engine_outputs) => engine_outputs,
                    Err(error) => {
                        return Err(error);
                    },
                };
                self.reconstruct_output(engine_outputs, indices_lists, input_length)
            },
        }
    }
}

} // verus!
