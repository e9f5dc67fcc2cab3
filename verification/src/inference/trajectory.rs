//! Trajectory routing over items that carry their own position: each item
//! knows its trajectory, where it stood in the request, and its content.

use std::collections::HashMap;
use vstd::prelude::*;
use vstd::string::StringExecFns;

use crate::inference::client::InferenceEngineClient;
use crate::inference::outcomes::{all_succeeded, is_first_failure};
use crate::inference::routing::{engine_index, engine_index_of};
use crate::inference::types::{
    Conversation, InferenceEngineInput, InferenceEngineInputView, InferenceEngineOutput,
    InferenceError, InferenceErrorView, Message, MessageView, SamplingParams, StopReason,
    StopReasonView,
};

verus! {

/// Content of one request item.
#[derive(Debug, PartialEq, Eq)]
pub enum TrajectoryData {
    Prompts(Vec<Message>),
    Tokens(Vec<i32>),
}

/// Mathematical content of a [`TrajectoryData`].
pub enum TrajectoryDataView {
    Prompts(Seq<MessageView>),
    Tokens(Seq<i32>),
}

impl DeepView for TrajectoryData {
    type V = TrajectoryDataView;

    open spec fn deep_view(&self) -> TrajectoryDataView {
        match self {
            TrajectoryData::Prompts(prompt) => TrajectoryDataView::Prompts(prompt.deep_view()),
            TrajectoryData::Tokens(tokens) => TrajectoryDataView::Tokens(tokens.deep_view()),
        }
    }
}

/// One request item with the trajectory it belongs to and the position it
/// had in the request.
#[derive(Debug, PartialEq, Eq)]
pub struct TrajectoryItem {
    pub trajectory_id: String,
    pub original_index: usize,
    pub data: TrajectoryData,
}

/// Mathematical content of a [`TrajectoryItem`].
pub struct TrajectoryItemView {
    pub trajectory_id: Seq<char>,
    pub original_index: usize,
    pub data: TrajectoryDataView,
}

impl DeepView for TrajectoryItem {
    type V = TrajectoryItemView;

    open spec fn deep_view(&self) -> TrajectoryItemView {
        TrajectoryItemView {
            trajectory_id: self.trajectory_id@,
            original_index: self.original_index,
            data: self.data.deep_view(),
        }
    }
}

/// `text` reports that a request has `items_len` items of the shape called
/// `shape` but `ids_len` trajectory identifiers, both counts in decimal.
pub open spec fn is_shape_mismatch_text(
    text: Seq<char>,
    shape: Seq<char>,
    items_len: nat,
    ids_len: nat,
) -> bool {
    exists|items_digits: String, ids_digits: String|
        {
            &&& #[trigger] vstd::string::to_string_from_display_ensures::<usize>(
                &(items_len as usize),
                items_digits,
            )
            &&& #[trigger] vstd::string::to_string_from_display_ensures::<usize>(
                &(ids_len as usize),
                ids_digits,
            )
            &&& text == shape + " length ("@ + items_digits@
                + ") must match trajectory_ids length ("@ + ids_digits@ + ")"@
        }
}

/// Builds the text that [`is_shape_mismatch_text`] describes.
fn shape_mismatch_text(shape: &str, items_len: usize, ids_len: usize) -> (text: String)
    ensures
        is_shape_mismatch_text(text@, shape@, items_len as nat, ids_len as nat),
{
    let items_digits = items_len.to_string();
    let ids_digits = ids_len.to_string();
    let text = shape.to_string().concat(" length (").concat(items_digits.as_str()).concat(
        ") must match trajectory_ids length (",
    ).concat(ids_digits.as_str()).concat(")");
    proof {
        assert(vstd::string::to_string_from_display_ensures::<usize>(
            &(items_len as nat as usize),
            items_digits,
        ));
        assert(vstd::string::to_string_from_display_ensures::<usize>(
            &(ids_len as nat as usize),
            ids_digits,
        ));
    }
    text
}

/// The items of a request whose identifiers are `ids`: item `i` belongs to
/// trajectory `ids[i]`, stood at position `i`, and holds prompt `i` if the
/// request has prompts, else token sequence `i`.
pub open spec fn items_of(input: InferenceEngineInputView) -> Seq<TrajectoryItemView> {
    let ids = input.trajectory_ids->Some_0;
    Seq::new(
        ids.len(),
        |i: int|
            TrajectoryItemView {
                trajectory_id: ids[i],
                original_index: i as usize,
                data: if input.prompts is Some {
                    TrajectoryDataView::Prompts(input.prompts->Some_0[i])
                } else {
                    TrajectoryDataView::Tokens(input.prompt_token_ids->Some_0[i])
                },
            },
    )
}

/// The prompts that the items hold, in the order of the items.
pub open spec fn prompts_of(items: Seq<TrajectoryItemView>) -> Seq<Seq<MessageView>> {
    Seq::new(items.len(), |j: int| items[j].data->Prompts_0)
}

/// The token sequences that the items hold, in the order of the items.
pub open spec fn tokens_of(items: Seq<TrajectoryItemView>) -> Seq<Seq<i32>> {
    Seq::new(items.len(), |j: int| items[j].data->Tokens_0)
}

/// All items hold prompts.
pub open spec fn all_prompts(items: Seq<TrajectoryItemView>) -> bool {
    forall|j: int| 0 <= j < items.len() ==> (#[trigger] items[j]).data is Prompts
}

/// All items hold token sequences.
pub open spec fn all_tokens(items: Seq<TrajectoryItemView>) -> bool {
    forall|j: int| 0 <= j < items.len() ==> (#[trigger] items[j]).data is Tokens
}

/// What trajectory routing asks of the backends: sub-request `k` goes to
/// backend `engine_indices[k]` and holds the items `traj_item_lists[k]`.
#[derive(Debug, PartialEq)]
pub struct TrajectoryPlan {
    pub engine_indices: Vec<usize>,
    pub inputs: Vec<InferenceEngineInput>,
    pub traj_item_lists: Vec<Vec<TrajectoryItem>>,
}

/// A group can be sent: it is not empty and its items all hold prompts or
/// all hold token sequences.
pub open spec fn group_is_valid(items: Seq<TrajectoryItemView>) -> bool {
    items.len() > 0 && (all_prompts(items) || all_tokens(items))
}

/// The error with which a group that cannot be sent is refused.
pub open spec fn group_error(items: Seq<TrajectoryItemView>) -> InferenceErrorView {
    if items.len() == 0 {
        InferenceErrorView::InvalidInput("Empty batch"@)
    } else {
        InferenceErrorView::InvalidInput("Mixed prompt and token data in same batch"@)
    }
}

/// The sub-request for a group that can be sent.
pub open spec fn group_input(
    items: Seq<TrajectoryItemView>,
    sampling_params: Option<crate::inference::types::SamplingParamsView>,
) -> InferenceEngineInputView {
    InferenceEngineInputView {
        prompts: if all_prompts(items) {
            Some(prompts_of(items))
        } else {
            None
        },
        prompt_token_ids: if all_prompts(items) {
            None
        } else {
            Some(tokens_of(items))
        },
        sampling_params,
        trajectory_ids: None,
    }
}

/// The last of the first `upto` sub-requests that went to `engine`, or `-1`
/// if none did.
pub open spec fn last_dispatch_to(engine_indices: Seq<usize>, upto: int, engine: usize) -> int
    decreases upto,
{
    if upto <= 0 {
        -1
    } else if engine_indices[upto - 1] == engine {
        upto - 1
    } else {
        last_dispatch_to(engine_indices, upto - 1, engine)
    }
}

/// Number of sub-requests that have their backend, their items and their
/// answer.
pub open spec fn answered_dispatches(indices: int, lists: int, results: int) -> int {
    if indices <= lists && indices <= results {
        indices
    } else if lists <= results {
        lists
    } else {
        results
    }
}

/// Number of items of a group that have an answer: answers pair up with
/// items in order until the items, the responses or the stop reasons run out.
pub open spec fn answered_items(group: (Vec<TrajectoryItem>, InferenceEngineOutput)) -> int {
    let items = group.0@.len() as int;
    let responses = group.1.responses@.len() as int;
    let stop_reasons = group.1.stop_reasons@.len() as int;
    if items <= responses && items <= stop_reasons {
        items
    } else if responses <= stop_reasons {
        responses
    } else {
        stop_reasons
    }
}

/// The `j`-th answer of the group of `engine` belongs to an item that stood
/// at `position`, and is `(response, stop_reason)`.
pub open spec fn is_write_of(
    results: Map<usize, (Vec<TrajectoryItem>, InferenceEngineOutput)>,
    engine: usize,
    j: int,
    position: int,
    response: Seq<char>,
    stop_reason: StopReason,
) -> bool {
    &&& results.contains_key(engine)
    &&& 0 <= j < answered_items(results[engine])
    &&& results[engine].0@[j].original_index == position
    &&& response == results[engine].1.responses@[j]@
    &&& stop_reason.deep_view() == results[engine].1.stop_reasons@[j].deep_view()
}

/// `(response, stop_reason)` is what stands at `position` once the groups
/// of the backends in `engines` have been written back: an answer whose item
/// stood there, if there is one, else the unset answer.
pub open spec fn is_answer_at(
    results: Map<usize, (Vec<TrajectoryItem>, InferenceEngineOutput)>,
    engines: Set<usize>,
    position: int,
    response: Seq<char>,
    stop_reason: StopReason,
) -> bool {
    if exists|engine: usize, j: int|
        engines.contains(engine) && #[trigger] names_item(results, engine, j, position) {
        exists|engine: usize, j: int|
            engines.contains(engine) && #[trigger] is_write_of(
                results,
                engine,
                j,
                position,
                response,
                stop_reason,
            )
    } else {
        response == Seq::<char>::empty() && stop_reason.deep_view() == StopReasonView::Other(
            "unset"@,
        )
    }
}

/// The `j`-th answered item of the group of `engine` stood at `position`.
pub open spec fn names_item(
    results: Map<usize, (Vec<TrajectoryItem>, InferenceEngineOutput)>,
    engine: usize,
    j: int,
    position: int,
) -> bool {
    &&& results.contains_key(engine)
    &&& 0 <= j < answered_items(results[engine])
    &&& results[engine].0@[j].original_index == position
}

/// As [`is_answer_at`], once the groups of `engines` and the first `upto`
/// answers of the group of `current` have been written back.
pub open spec fn is_partial_answer_at(
    results: Map<usize, (Vec<TrajectoryItem>, InferenceEngineOutput)>,
    engines: Set<usize>,
    current: usize,
    upto: int,
    position: int,
    response: Seq<char>,
    stop_reason: StopReason,
) -> bool {
    if exists|engine: usize, j: int|
        (engines.contains(engine) || (engine == current && j < upto)) && #[trigger] names_item(
            results,
            engine,
            j,
            position,
        ) {
        exists|engine: usize, j: int|
            (engines.contains(engine) || (engine == current && j < upto))
                && #[trigger] is_write_of(results, engine, j, position, response, stop_reason)
    } else {
        response == Seq::<char>::empty() && stop_reason.deep_view() == StopReasonView::Other(
            "unset"@,
        )
    }
}

/// Before any answer of the current group is written, only the groups
/// written so far count.
pub proof fn lemma_partial_answer_starts(
    results: Map<usize, (Vec<TrajectoryItem>, InferenceEngineOutput)>,
    engines: Set<usize>,
    current: usize,
    position: int,
    response: Seq<char>,
    stop_reason: StopReason,
)
    requires
        is_answer_at(results, engines, position, response, stop_reason),
    ensures
        is_partial_answer_at(results, engines, current, 0, position, response, stop_reason),
{
    if exists|engine: usize, j: int|
        (engines.contains(engine) || (engine == current && j < 0)) && #[trigger] names_item(
            results,
            engine,
            j,
            position,
        ) {
        let (engine, j) = choose|engine: usize, j: int|
            (engines.contains(engine) || (engine == current && j < 0)) && #[trigger] names_item(
                results,
                engine,
                j,
                position,
            );
        assert(engines.contains(engine) && names_item(results, engine, j, position));
        let (writer, k) = choose|writer: usize, k: int|
            engines.contains(writer) && #[trigger] is_write_of(
                results,
                writer,
                k,
                position,
                response,
                stop_reason,
            );
        assert((engines.contains(writer) || (writer == current && k < 0)) && is_write_of(
            results,
            writer,
            k,
            position,
            response,
            stop_reason,
        ));
    } else {
        assert forall|engine: usize, j: int| engines.contains(engine) implies !(
        #[trigger] names_item(results, engine, j, position)) by {
            if names_item(results, engine, j, position) {
                assert((engines.contains(engine) || (engine == current && j < 0)) && names_item(
                    results,
                    engine,
                    j,
                    position,
                ));
            }
        }
    }
}

/// Writing answer `upto` of the current group changes the position of its
/// item to that answer and leaves every other position as it was.
pub proof fn lemma_partial_answer_step(
    results: Map<usize, (Vec<TrajectoryItem>, InferenceEngineOutput)>,
    engines: Set<usize>,
    current: usize,
    upto: int,
    position: int,
    response: Seq<char>,
    stop_reason: StopReason,
    new_response: Seq<char>,
    new_stop_reason: StopReason,
)
    requires
        results.contains_key(current),
        0 <= upto < answered_items(results[current]),
        is_partial_answer_at(results, engines, current, upto, position, response, stop_reason),
        results[current].0@[upto].original_index == position ==> is_write_of(
            results,
            current,
            upto,
            position,
            new_response,
            new_stop_reason,
        ),
        results[current].0@[upto].original_index != position ==> new_response == response
            && new_stop_reason == stop_reason,
    ensures
        is_partial_answer_at(
            results,
            engines,
            current,
            upto + 1,
            position,
            new_response,
            new_stop_reason,
        ),
{
    if results[current].0@[upto].original_index == position {
        assert((engines.contains(current) || (current == current && upto < upto + 1))
            && names_item(results, current, upto, position));
        assert((engines.contains(current) || (current == current && upto < upto + 1))
            && is_write_of(results, current, upto, position, new_response, new_stop_reason));
    } else if exists|engine: usize, j: int|
        (engines.contains(engine) || (engine == current && j < upto + 1))
            && #[trigger] names_item(results, engine, j, position) {
        let (engine, j) = choose|engine: usize, j: int|
            (engines.contains(engine) || (engine == current && j < upto + 1))
                && #[trigger] names_item(results, engine, j, position);
        assert((engines.contains(engine) || (engine == current && j < upto)) && names_item(
            results,
            engine,
            j,
            position,
        ));
        let (writer, k) = choose|writer: usize, k: int|
            (engines.contains(writer) || (writer == current && k < upto))
                && #[trigger] is_write_of(results, writer, k, position, response, stop_reason);
        assert((engines.contains(writer) || (writer == current && k < upto + 1)) && is_write_of(
            results,
            writer,
            k,
            position,
            new_response,
            new_stop_reason,
        ));
    } else {
        assert forall|engine: usize, j: int|
            (engines.contains(engine) || (engine == current && j < upto)) implies !(
        #[trigger] names_item(results, engine, j, position)) by {
            if names_item(results, engine, j, position) {
                assert((engines.contains(engine) || (engine == current && j < upto + 1))
                    && names_item(results, engine, j, position));
            }
        }
    }
}

/// Once all answers of the current group are written, the group counts as
/// written.
pub proof fn lemma_partial_answer_completes(
    results: Map<usize, (Vec<TrajectoryItem>, InferenceEngineOutput)>,
    engines: Set<usize>,
    current: usize,
    position: int,
    response: Seq<char>,
    stop_reason: StopReason,
)
    requires
        results.contains_key(current),
        is_partial_answer_at(
            results,
            engines,
            current,
            answered_items(results[current]),
            position,
            response,
            stop_reason,
        ),
    ensures
        is_answer_at(results, engines.insert(current), position, response, stop_reason),
{
    let upto = answered_items(results[current]);
    let wider = engines.insert(current);
    if exists|engine: usize, j: int|
        wider.contains(engine) && #[trigger] names_item(results, engine, j, position) {
        let (engine, j) = choose|engine: usize, j: int|
            wider.contains(engine) && #[trigger] names_item(results, engine, j, position);
        assert((engines.contains(engine) || (engine == current && j < upto)) && names_item(
            results,
            engine,
            j,
            position,
        ));
        let (writer, k) = choose|writer: usize, k: int|
            (engines.contains(writer) || (writer == current && k < upto))
                && #[trigger] is_write_of(results, writer, k, position, response, stop_reason);
        assert(wider.contains(writer) && is_write_of(
            results,
            writer,
            k,
            position,
            response,
            stop_reason,
        ));
    } else {
        assert forall|engine: usize, j: int|
            (engines.contains(engine) || (engine == current && j < upto)) implies !(
        #[trigger] names_item(results, engine, j, position)) by {
            if names_item(results, engine, j, position) {
                assert(wider.contains(engine) && names_item(results, engine, j, position));
            }
        }
    }
}

/// The items whose trajectory is served by `engine`, in their order.
pub open spec fn items_for_engine(
    items: Seq<TrajectoryItem>,
    num_engines: nat,
    engine: nat,
) -> Seq<TrajectoryItem> {
    items.filter(|item: TrajectoryItem| engine_index(item.trajectory_id@, num_engines) == engine)
}

/// `groups` holds one entry for each backend that serves any of `items`:
/// its items, in their order.
pub open spec fn is_item_grouping(
    groups: Map<usize, Vec<TrajectoryItem>>,
    items: Seq<TrajectoryItem>,
    num_engines: nat,
) -> bool {
    forall|engine: usize|
        {
            &&& #[trigger] groups.contains_key(engine) <==> items_for_engine(
                items,
                num_engines,
                engine as nat,
            ).len() > 0
            &&& groups.contains_key(engine) ==> groups[engine]@ == items_for_engine(
                items,
                num_engines,
                engine as nat,
            )
        }
}

/// Taking one more item into account appends it to the group of its engine
/// and leaves every other group alone.
pub proof fn lemma_items_for_engine_step(
    items: Seq<TrajectoryItem>,
    num_engines: nat,
    engine: nat,
    upto: int,
)
    requires
        0 <= upto < items.len(),
    ensures
        items_for_engine(items.take(0), num_engines, engine) == Seq::<TrajectoryItem>::empty(),
        items_for_engine(items.take(upto + 1), num_engines, engine) == if engine_index(
            items[upto].trajectory_id@,
            num_engines,
        ) == engine {
            items_for_engine(items.take(upto), num_engines, engine).push(items[upto])
        } else {
            items_for_engine(items.take(upto), num_engines, engine)
        },
{
    reveal(Seq::filter);
    let served = |item: TrajectoryItem|
        engine_index(item.trajectory_id@, num_engines) == engine;
    assert(items.take(0).filter(served) == Seq::<TrajectoryItem>::empty());
    assert(items.take(upto + 1).drop_last() =~= items.take(upto));
    assert(items.take(upto + 1).last() == items[upto]);
}

impl<E> InferenceEngineClient<E> {
    /// Groups items by the backend that serves their trajectory, keeping
    /// their order within each group.
    pub fn group_trajectories_by_engine(&self, traj_items: Vec<TrajectoryItem>) -> (groups: HashMap<
        usize,
        Vec<TrajectoryItem>,
    >)
        ensures
            is_item_grouping(groups@, traj_items@, self@.len()),
            forall|engine: usize| #[trigger] groups@.contains_key(engine) ==> engine < self@.len(),
    {
        let num_engines = self.num_engines();
        let ghost items = traj_items@;
        let mut groups: HashMap<usize, Vec<TrajectoryItem>> = HashMap::new();
        proof {
            assert forall|engine: usize|
                items_for_engine(items.take(0), num_engines as nat, engine as nat)
                    == Seq::<TrajectoryItem>::empty() by {
                if items.len() > 0 {
                    lemma_items_for_engine_step(items, num_engines as nat, engine as nat, 0);
                } else {
                    reveal(Seq::filter);
                }
            }
        }
        for traj_item in it: traj_items
            invariant
                it.seq() == items,
                num_engines == self@.len(),
                num_engines > 0,
                is_item_grouping(groups@, items.take(it.index()), num_engines as nat),
                forall|engine: usize| #[trigger] groups@.contains_key(engine) ==> engine < num_engines,
        {
            let ghost done = it.index();
            let ghost before = groups@;
            let engine = engine_index_of(traj_item.trajectory_id.as_str(), num_engines);
            let mut group = match groups.remove(&engine) {
                Some(group) => group,
                None => Vec::new(),
            };
            group.push(traj_item);
            groups.insert(engine, group);
            proof {
                assert(items[done] == traj_item);
                assert forall|other: usize|
                    (#[trigger] groups@.contains_key(other) <==> items_for_engine(
                        items.take(done + 1),
                        num_engines as nat,
                        other as nat,
                    ).len() > 0) && (groups@.contains_key(other) ==> groups@[other]@
                        == items_for_engine(
                        items.take(done + 1),
                        num_engines as nat,
                        other as nat,
                    )) by {
                    lemma_items_for_engine_step(items, num_engines as nat, other as nat, done);
                    assert(before.contains_key(other) <==> items_for_engine(
                        items.take(done),
                        num_engines as nat,
                        other as nat,
                    ).len() > 0);
                }
            }
        }
        assert(items.take(items.len() as int) =~= items);
        groups
    }

    /// Turns a request with trajectory identifiers into items, one per
    /// position.
    ///
    /// The shape that is read is the prompts if there are any, else the
    /// token sequences; it must have one item per identifier.
    pub fn create_trajectory_items(&self, input: &InferenceEngineInput) -> (items: Result<
        Vec<TrajectoryItem>,
        InferenceError,
    >)
        ensures
            items is Ok <==> {
                &&& input.trajectory_ids is Some
                &&& input.prompts is Some || input.prompt_token_ids is Some
                &&& input.spec_len() == input.trajectory_ids->Some_0@.len()
            },
            items matches Ok(made) ==> made.deep_view() == items_of(input.deep_view()),
            input.trajectory_ids is None ==> (items matches Err(error) && error.deep_view()
                == InferenceErrorView::InvalidInput("trajectory_ids required"@)),
            input.trajectory_ids is Some && input.prompts is None && input.prompt_token_ids
                is None ==> (items matches Err(error) && error.deep_view()
                == InferenceErrorView::InvalidInput(
                "Either prompts or prompt_token_ids must be provided"@,
            )),
            input.trajectory_ids is Some && input.prompts is Some && input.spec_len()
                != input.trajectory_ids->Some_0@.len() ==> (items matches Err(
                InferenceError::InvalidInput(detail),
            ) && is_shape_mismatch_text(
                detail@,
                "prompts"@,
                input.spec_len(),
                input.trajectory_ids->Some_0@.len(),
            )),
            input.trajectory_ids is Some && input.prompts is None && input.prompt_token_ids
                is Some && input.spec_len() != input.trajectory_ids->Some_0@.len() ==> (
            items matches Err(InferenceError::InvalidInput(detail)) && is_shape_mismatch_text(
                detail@,
                "tokens"@,
                input.spec_len(),
                input.trajectory_ids->Some_0@.len(),
            )),
    {
        let trajectory_ids = match &input.trajectory_ids {
            Some(trajectory_ids) => trajectory_ids,
            None => {
                return Err(InferenceError::InvalidInput("trajectory_ids required".to_string()));
            },
        };
        let mut traj_items: Vec<TrajectoryItem> = Vec::new();
        let ghost expected = items_of(input.deep_view());
        if let Some(prompts) = &input.prompts {
            if prompts.len() != trajectory_ids.len() {
                return Err(
                    InferenceError::InvalidInput(
                        shape_mismatch_text("prompts", prompts.len(), trajectory_ids.len()),
                    ),
                );
            }
            for idx in 0..prompts.len()
                invariant
                    input.prompts == Some(*prompts),
                    input.trajectory_ids == Some(*trajectory_ids),
                    prompts@.len() == trajectory_ids@.len(),
                    expected == items_of(input.deep_view()),
                    traj_items@.len() == idx,
                    forall|i: int|
                        0 <= i < idx ==> (#[trigger] traj_items@[i]).deep_view() == expected[i],
            {
                let item = TrajectoryItem {
                    trajectory_id: trajectory_ids[idx].clone(),
                    original_index: idx,
                    data: TrajectoryData::Prompts(prompts[idx].clone()),
                };
                assert(item.data.deep_view()->Prompts_0 =~= prompts@[idx as int].deep_view());
                assert(item.deep_view() == expected[idx as int]);
                traj_items.push(item);
            }
        } else if let Some(tokens) = &input.prompt_token_ids {
            if tokens.len() != trajectory_ids.len() {
                return Err(
                    InferenceError::InvalidInput(
                        shape_mismatch_text("tokens", tokens.len(), trajectory_ids.len()),
                    ),
                );
            }
            for idx in 0..tokens.len()
                invariant
                    input.prompts is None,
                    input.prompt_token_ids == Some(*tokens),
                    input.trajectory_ids == Some(*trajectory_ids),
                    tokens@.len() == trajectory_ids@.len(),
                    expected == items_of(input.deep_view()),
                    traj_items@.len() == idx,
                    forall|i: int|
                        0 <= i < idx ==> (#[trigger] traj_items@[i]).deep_view() == expected[i],
            {
                let item = TrajectoryItem {
                    trajectory_id: trajectory_ids[idx].clone(),
                    original_index: idx,
                    data: TrajectoryData::Tokens(tokens[idx].clone()),
                };
                assert(item.data.deep_view()->Tokens_0 =~= tokens@[idx as int].deep_view());
                assert(item.deep_view() == expected[idx as int]);
                traj_items.push(item);
            }
        } else {
            return Err(
                InferenceError::InvalidInput(
                    "Either prompts or prompt_token_ids must be provided".to_string(),
                ),
            );
        }
        assert(traj_items.deep_view() =~= expected);
        Ok(traj_items)
    }

    /// Builds the sub-request for a group of items, in their order.
    ///
    /// The group must not be empty, and its items must all hold prompts or
    /// all hold token sequences.
    pub fn build_engine_input_from_traj_items(
        &self,
        traj_items: &[TrajectoryItem],
        sampling_params: &Option<SamplingParams>,
    ) -> (sub_input: Result<InferenceEngineInput, InferenceError>)
        ensures
            sub_input is Ok <==> traj_items@.len() > 0 && (all_prompts(traj_items.deep_view())
                || all_tokens(traj_items.deep_view())),
            traj_items@.len() == 0 ==> (sub_input matches Err(error) && error.deep_view()
                == InferenceErrorView::InvalidInput("Empty batch"@)),
            traj_items@.len() > 0 && !all_prompts(traj_items.deep_view()) && !all_tokens(
                traj_items.deep_view(),
            ) ==> (sub_input matches Err(error) && error.deep_view()
                == InferenceErrorView::InvalidInput(
                "Mixed prompt and token data in same batch"@,
            )),
            sub_input matches Ok(sub) ==> sub.deep_view() == (InferenceEngineInputView {
                prompts: if all_prompts(traj_items.deep_view()) {
                    Some(prompts_of(traj_items.deep_view()))
                } else {
                    None
                },
                prompt_token_ids: if all_prompts(traj_items.deep_view()) {
                    None
                } else {
                    Some(tokens_of(traj_items.deep_view()))
                },
                sampling_params: sampling_params.deep_view(),
                trajectory_ids: None,
            }),
    {
        if traj_items.len() == 0 {
            return Err(InferenceError::InvalidInput("Empty batch".to_string()));
        }
        let ghost items = traj_items.deep_view();
        let is_prompts = match &traj_items[0].data {
            TrajectoryData::Prompts(_) => true,
            TrajectoryData::Tokens(_) => false,
        };
        assert(items[0].data is Prompts == is_prompts);
        if is_prompts {
            let mut prompts: Vec<Conversation> = Vec::new();
            for j in 0..traj_items.len()
                invariant
                    items == traj_items.deep_view(),
                    items.len() > 0,
                    items[0].data is Prompts,
                    prompts@.len() == j,
                    forall|k: int| 0 <= k < j ==> (#[trigger] items[k]).data is Prompts,
                    forall|k: int|
                        0 <= k < j ==> (#[trigger] prompts@[k]).deep_view()
                            == items[k].data->Prompts_0,
            {
                match &traj_items[j].data {
                    TrajectoryData::Prompts(prompt) => {
                        let copy = prompt.clone();
                        assert(copy.deep_view() =~= items[j as int].data->Prompts_0);
                        prompts.push(copy);
                    },
                    TrajectoryData::Tokens(_) => {
                        assert(!(items[j as int].data is Prompts));
                        assert(!(items[0].data is Tokens));
                        return Err(
                            InferenceError::InvalidInput(
                                "Mixed prompt and token data in same batch".to_string(),
                            ),
                        );
                    },
                }
            }
            let sub = InferenceEngineInput {
                prompts: Some(prompts),
                prompt_token_ids: None,
                sampling_params: sampling_params.clone(),
                trajectory_ids: None,
            };
            assert(sub.prompts.deep_view()->Some_0 =~= prompts_of(items));
            Ok(sub)
        } else {
            let mut tokens: Vec<Vec<i32>> = Vec::new();
            for j in 0..traj_items.len()
                invariant
                    items == traj_items.deep_view(),
                    items.len() > 0,
                    items[0].data is Tokens,
                    tokens@.len() == j,
                    forall|k: int| 0 <= k < j ==> (#[trigger] items[k]).data is Tokens,
                    forall|k: int|
                        0 <= k < j ==> (#[trigger] tokens@[k]).deep_view()
                            == items[k].data->Tokens_0,
            {
                match &traj_items[j].data {
                    TrajectoryData::Tokens(token) => {
                        let copy = token.clone();
                        assert(copy.deep_view() =~= items[j as int].data->Tokens_0);
                        tokens.push(copy);
                    },
                    TrajectoryData::Prompts(_) => {
                        assert(!(items[j as int].data is Tokens));
                        assert(!(items[0].data is Prompts));
                        return Err(
                            InferenceError::InvalidInput(
                                "Mixed prompt and token data in same batch".to_string(),
                            ),
                        );
                    },
                }
            }
            let sub = InferenceEngineInput {
                prompts: None,
                prompt_token_ids: Some(tokens),
                sampling_params: sampling_params.clone(),
                trajectory_ids: None,
            };
            assert(!(items[0].data is Prompts));
            assert(sub.prompt_token_ids.deep_view()->Some_0 =~= tokens_of(items));
            Ok(sub)
        }
    }

    /// Puts the answers of the groups back at the positions their items came
    /// from.
    ///
    /// The `j`-th answer of a group belongs to its `j`-th item and goes to
    /// the position that item had in the request; answers without an item and
    /// items without an answer are passed over. Where the request has items,
    /// every position that an item names must exist. A position that no answered item names keeps an
    /// empty response and the stop reason `Other("unset")`; one that several
    /// name gets the answer of one of them.
    pub fn reconstruct_by_original_index(
        &self,
        engine_results: HashMap<usize, (Vec<TrajectoryItem>, InferenceEngineOutput)>,
        original_input: &InferenceEngineInput,
    ) -> (output: Result<InferenceEngineOutput, InferenceError>)
        requires
            original_input.prompts is Some || original_input.prompt_token_ids is Some ==> forall|
                engine: usize,
                j: int,
            |
                engine_results@.contains_key(engine) && 0 <= j < engine_results@[engine].0@.len()
                    ==> (#[trigger] engine_results@[engine].0@[j]).original_index
                    < original_input.spec_len(),
        ensures
            output is Ok <==> original_input.prompts is Some || original_input.prompt_token_ids
                is Some,
            output matches Err(error) ==> error.deep_view() == InferenceErrorView::InvalidInput(
                "No input data"@,
            ),
            output matches Ok(merged) ==> {
                &&& merged.responses@.len() == original_input.spec_len()
                &&& merged.stop_reasons@.len() == original_input.spec_len()
                &&& forall|position: int|
                    0 <= position < original_input.spec_len() ==> #[trigger] is_answer_at(
                        engine_results@,
                        engine_results@.dom(),
                        position,
                        merged.responses@[position]@,
                        merged.stop_reasons@[position],
                    )
            },
    {
        let total_length = if let Some(prompts) = &original_input.prompts {
            prompts.len()
        } else if let Some(tokens) = &original_input.prompt_token_ids {
            tokens.len()
        } else {
            return Err(InferenceError::InvalidInput("No input data".to_string()));
        };
        let mut responses: Vec<String> = Vec::new();
        let mut stop_reasons: Vec<StopReason> = Vec::new();
        for position in 0..total_length
            invariant
                responses@.len() == position,
                stop_reasons@.len() == position,
                forall|i: int| 0 <= i < position ==> (#[trigger] responses@[i])@ == Seq::<char>::empty(),
                forall|i: int|
                    0 <= i < position ==> (#[trigger] stop_reasons@[i]).deep_view()
                        == StopReasonView::Other("unset"@),
        {
            responses.push(String::new());
            stop_reasons.push(StopReason::Other("unset".to_string()));
        }
        let ghost results = engine_results@;
        let ghost mut seen: Set<usize> = Set::empty();
        for entry in it: engine_results.iter()
            invariant
                results == engine_results@,
                total_length == original_input.spec_len(),
                responses@.len() == total_length,
                stop_reasons@.len() == total_length,
                it.seq().no_duplicates(),
                forall|i: int|
                    0 <= i < it.seq().len() ==> results.contains_key(*(#[trigger] it.seq()[i]).0)
                        && results[*it.seq()[i].0] == *it.seq()[i].1,
                forall|engine: usize|
                    seen.contains(engine) <==> exists|i: int|
                        0 <= i < it.index() && *(#[trigger] it.seq()[i]).0 == engine,
                forall|engine: usize|
                    results.contains_key(engine) && !seen.contains(engine) ==> exists|i: int|
                        it.index() <= i < it.seq().len() && *(#[trigger] it.seq()[i]).0 == engine,
                forall|engine: usize| seen.contains(engine) ==> results.contains_key(engine),
                forall|engine: usize, j: int|
                    results.contains_key(engine) && 0 <= j < results[engine].0@.len() ==> (
                    #[trigger] results[engine].0@[j]).original_index < total_length,
                forall|position: int|
                    0 <= position < total_length ==> #[trigger] is_answer_at(
                        results,
                        seen,
                        position,
                        responses@[position]@,
                        stop_reasons@[position],
                    ),
        {
            let (engine, group) = entry;
            let (traj_items, engine_output) = group;
            let ghost seen_before = seen;
            let ghost texts_before = responses@;
            let ghost reasons_before = stop_reasons@;
            proof {
                assert(it.seq()[it.index()] == (engine, group));
                assert(results.contains_key(*engine) && results[*engine] == *group);
                assert(!seen_before.contains(*engine)) by {
                    if seen_before.contains(*engine) {
                        let i = choose|i: int|
                            0 <= i < it.index() && *(#[trigger] it.seq()[i]).0 == *engine;
                        assert(it.seq()[i] == it.seq()[it.index()]);
                    }
                }
            }
            let mut answered = traj_items.len();
            if engine_output.responses.len() < answered {
                answered = engine_output.responses.len();
            }
            if engine_output.stop_reasons.len() < answered {
                answered = engine_output.stop_reasons.len();
            }
            let ghost mut written: int = 0;
            proof {
                assert forall|position: int|
                    0 <= position < total_length implies #[trigger] is_partial_answer_at(
                    results,
                    seen_before,
                    *engine,
                    0,
                    position,
                    responses@[position]@,
                    stop_reasons@[position],
                ) by {
                    lemma_partial_answer_starts(
                        results,
                        seen_before,
                        *engine,
                        position,
                        responses@[position]@,
                        stop_reasons@[position],
                    );
                }
            }
            for j in 0..answered
                invariant
                    written == j,
                    results.contains_key(*engine),
                    results[*engine] == (*traj_items, *engine_output),
                    !seen_before.contains(*engine),
                    answered == answered_items(results[*engine]),
                    responses@.len() == total_length,
                    stop_reasons@.len() == total_length,
                    forall|k: int|
                        0 <= k < traj_items@.len() ==> (#[trigger] traj_items@[k]).original_index
                            < total_length,
                    forall|position: int|
                        0 <= position < total_length ==> #[trigger] is_partial_answer_at(
                            results,
                            seen_before,
                            *engine,
                            written,
                            position,
                            responses@[position]@,
                            stop_reasons@[position],
                        ),
            {
                let target = traj_items[j].original_index;
                let ghost texts_so_far = responses@;
                let ghost reasons_so_far = stop_reasons@;
                responses[target] = engine_output.responses[j].clone();
                stop_reasons[target] = engine_output.stop_reasons[j].clone();
                proof {
                    written = written + 1;
                    assert forall|position: int|
                        0 <= position < total_length implies #[trigger] is_partial_answer_at(
                        results,
                        seen_before,
                        *engine,
                        written,
                        position,
                        responses@[position]@,
                        stop_reasons@[position],
                    ) by {
                        assert(is_partial_answer_at(
                            results,
                            seen_before,
                            *engine,
                            written - 1,
                            position,
                            texts_so_far[position]@,
                            reasons_so_far[position],
                        ));
                        lemma_partial_answer_step(
                            results,
                            seen_before,
                            *engine,
                            written - 1,
                            position,
                            texts_so_far[position]@,
                            reasons_so_far[position],
                            responses@[position]@,
                            stop_reasons@[position],
                        );
                    }
                }
            }
            proof {
                seen = seen_before.insert(*engine);
                assert forall|other: usize|
                    seen.contains(other) <==> exists|i: int|
                        0 <= i < it.index() + 1 && *(#[trigger] it.seq()[i]).0 == other by {
                    if seen_before.contains(other) {
                        let i = choose|i: int|
                            0 <= i < it.index() && *(#[trigger] it.seq()[i]).0 == other;
                        assert(*it.seq()[i].0 == other);
                    }
                    if other == *engine {
                        assert(*it.seq()[it.index()].0 == other);
                    }
                }
                assert forall|other: usize|
                    results.contains_key(other) && !seen.contains(other) implies exists|i: int|
                    it.index() + 1 <= i < it.seq().len() && *(#[trigger] it.seq()[i]).0
                        == other by {
                    let i = choose|i: int|
                        it.index() <= i < it.seq().len() && *(#[trigger] it.seq()[i]).0 == other;
                    assert(i != it.index());
                }
                assert forall|position: int|
                    0 <= position < total_length implies #[trigger] is_answer_at(
                    results,
                    seen,
                    position,
                    responses@[position]@,
                    stop_reasons@[position],
                ) by {
                    lemma_partial_answer_completes(
                        results,
                        seen_before,
                        *engine,
                        position,
                        responses@[position]@,
                        stop_reasons@[position],
                    );
                }
            }
        }
        assert(seen =~= results.dom());
        Ok(InferenceEngineOutput { responses, stop_reasons })
    }

    /// Plans the sub-requests of groups of items, in backend order.
    ///
    /// Every group must belong to a backend of the router. The plan exists
    /// if every group can be sent; otherwise the call fails with the error of
    /// the first group, in backend order, that cannot.
    pub fn plan_trajectory_groups(
        &self,
        engine_groups: HashMap<usize, Vec<TrajectoryItem>>,
        sampling_params: &Option<SamplingParams>,
    ) -> (plan: Result<TrajectoryPlan, InferenceError>)
        requires
            forall|engine: usize| #[trigger]
                engine_groups@.contains_key(engine) ==> engine < self@.len(),
        ensures
            plan is Ok <==> forall|engine: usize| #[trigger]
                engine_groups@.contains_key(engine) ==> group_is_valid(
                    engine_groups@[engine].deep_view(),
                ),
            plan matches Err(error) ==> exists|engine: usize|
                {
                    &&& #[trigger] engine_groups@.contains_key(engine)
                    &&& !group_is_valid(engine_groups@[engine].deep_view())
                    &&& error.deep_view() == group_error(engine_groups@[engine].deep_view())
                    &&& forall|earlier: usize|
                        earlier < engine && #[trigger] engine_groups@.contains_key(earlier)
                            ==> group_is_valid(engine_groups@[earlier].deep_view())
                },
            plan matches Ok(planned) ==> {
                &&& planned.engine_indices@.len() == planned.inputs@.len()
                &&& planned.engine_indices@.len() == planned.traj_item_lists@.len()
                &&& forall|k: int, l: int|
                    0 <= k < l < planned.engine_indices@.len()
                        ==> #[trigger] planned.engine_indices@[k]
                        < #[trigger] planned.engine_indices@[l]
                &&& forall|engine: usize|
                    #[trigger] engine_groups@.contains_key(engine)
                        <==> planned.engine_indices@.contains(engine)
                &&& forall|k: int|
                    0 <= k < planned.engine_indices@.len() ==> {
                        &&& engine_groups@.contains_key(#[trigger] planned.engine_indices@[k])
                        &&& planned.traj_item_lists@[k] == engine_groups@[planned.engine_indices@[k]]
                        &&& planned.inputs@[k].deep_view() == group_input(
                            planned.traj_item_lists@[k].deep_view(),
                            sampling_params.deep_view(),
                        )
                    }
            },
    {
        let num_engines = self.num_engines();
        let ghost groups = engine_groups@;
        let mut remaining = engine_groups;
        let mut engine_indices: Vec<usize> = Vec::new();
        let mut inputs: Vec<InferenceEngineInput> = Vec::new();
        let mut traj_item_lists: Vec<Vec<TrajectoryItem>> = Vec::new();
        for engine in 0..num_engines
            invariant
                num_engines == self@.len(),
                groups == engine_groups@,
                forall|other: usize| #[trigger] groups.contains_key(other) ==> other < num_engines,
                forall|other: usize|
                    other >= engine ==> (#[trigger] remaining@.contains_key(other)
                        <==> groups.contains_key(other)),
                forall|other: usize|
                    other >= engine && #[trigger] remaining@.contains_key(other)
                        ==> remaining@[other] == groups[other],
                engine_indices@.len() == inputs@.len(),
                engine_indices@.len() == traj_item_lists@.len(),
                forall|k: int, l: int|
                    0 <= k < l < engine_indices@.len() ==> #[trigger] engine_indices@[k]
                        < #[trigger] engine_indices@[l],
                forall|k: int|
                    0 <= k < engine_indices@.len() ==> {
                        &&& (#[trigger] engine_indices@[k]) < engine
                        &&& groups.contains_key(engine_indices@[k])
                        &&& traj_item_lists@[k] == groups[engine_indices@[k]]
                        &&& inputs@[k].deep_view() == group_input(
                            traj_item_lists@[k].deep_view(),
                            sampling_params.deep_view(),
                        )
                    },
                forall|other: usize|
                    other < engine && #[trigger] groups.contains_key(other) ==> {
                        &&& group_is_valid(groups[other].deep_view())
                        &&& engine_indices@.contains(other)
                    },
        {
            let ghost planned_before = engine_indices@;
            match remaining.remove(&engine) {
                Some(traj_items) => {
                    assert(groups.contains_key(engine) && groups[engine] == traj_items);
                    let items_slice = traj_items.as_slice();
                    assert(items_slice.deep_view() =~= traj_items.deep_view());
                    let input = match self.build_engine_input_from_traj_items(
                        items_slice,
                        sampling_params,
                    ) {
                        Ok(input) => input,
                        Err(error) => {
                            proof {
                                assert(groups.contains_key(engine) && !group_is_valid(
                                    groups[engine].deep_view(),
                                ) && error.deep_view() == group_error(groups[engine].deep_view()));
                            }
                            return Err(error);
                        },
                    };
                    engine_indices.push(engine);
                    inputs.push(input);
                    traj_item_lists.push(traj_items);
                    proof {
                        assert(engine_indices@[engine_indices@.len() - 1] == engine);
                        assert forall|other: usize|
                            other < engine + 1 && #[trigger] groups.contains_key(
                                other,
                            ) implies engine_indices@.contains(other) by {
                            if other < engine {
                                let k = choose|k: int|
                                    0 <= k < planned_before.len() && planned_before[k] == other;
                                assert(engine_indices@[k] == other);
                            }
                        }
                    }
                },
                None => {
                    assert(!groups.contains_key(engine));
                },
            }
        }
        Ok(TrajectoryPlan { engine_indices, inputs, traj_item_lists })
    }

    /// Joins the answers of the backends with the items they answer, by
    /// backend.
    ///
    /// Answer `k` belongs to sub-request `k`; sub-requests that lack their
    /// backend, their items or their answer are passed over. If a backend
    /// failed, the call fails with the first failure in the order of the
    /// sub-requests. Where several sub-requests went to one backend, the last
    /// of them stays.
    pub fn collect_trajectory_results(
        &self,
        engine_indices: Vec<usize>,
        traj_item_lists: Vec<Vec<TrajectoryItem>>,
        results: Vec<Result<InferenceEngineOutput, InferenceError>>,
    ) -> (collected: Result<
        HashMap<usize, (Vec<TrajectoryItem>, InferenceEngineOutput)>,
        InferenceError,
    >)
        ensures
            collected is Ok <==> all_succeeded(
                results@.take(
                    answered_dispatches(
                        engine_indices@.len() as int,
                        traj_item_lists@.len() as int,
                        results@.len() as int,
                    ),
                ),
            ),
            forall|at: int|
                is_first_failure(
                    results@.take(
                        answered_dispatches(
                            engine_indices@.len() as int,
                            traj_item_lists@.len() as int,
                            results@.len() as int,
                        ),
                    ),
                    at,
                ) ==> collected == Err::<
                    HashMap<usize, (Vec<TrajectoryItem>, InferenceEngineOutput)>,
                    InferenceError,
                >(results@[at]->Err_0),
            collected matches Ok(engine_results) ==> {
                let answered = answered_dispatches(
                    engine_indices@.len() as int,
                    traj_item_lists@.len() as int,
                    results@.len() as int,
                );
                forall|engine: usize|
                    {
                        let last = last_dispatch_to(engine_indices@, answered, engine);
                        &&& #[trigger] engine_results@.contains_key(engine) <==> last >= 0
                        &&& engine_results@.contains_key(engine) ==> engine_results@[engine] == (
                            traj_item_lists@[last],
                            results@[last]->Ok_0,
                        )
                    }
            },
    {
        let mut answered = engine_indices.len();
        if traj_item_lists.len() < answered {
            answered = traj_item_lists.len();
        }
        if results.len() < answered {
            answered = results.len();
        }
        let ghost lists = traj_item_lists@;
        let ghost outcomes = results@;
        let mut pending_lists = traj_item_lists;
        let mut pending = results;
        let mut engine_results: HashMap<usize, (Vec<TrajectoryItem>, InferenceEngineOutput)> =
            HashMap::new();
        let ghost mut joined: int = 0;
        for k in 0..answered
            invariant
                joined == k,
                answered == answered_dispatches(
                    engine_indices@.len() as int,
                    lists.len() as int,
                    outcomes.len() as int,
                ),
                lists == traj_item_lists@,
                outcomes == results@,
                pending_lists@.len() == lists.len(),
                pending@.len() == outcomes.len(),
                forall|i: int| k <= i < lists.len() ==> #[trigger] pending_lists@[i] == lists[i],
                forall|i: int| k <= i < outcomes.len() ==> #[trigger] pending@[i] == outcomes[i],
                forall|i: int| 0 <= i < k ==> (#[trigger] outcomes[i]) is Ok,
                forall|engine: usize|
                    {
                        let last = last_dispatch_to(engine_indices@, joined, engine);
                        &&& #[trigger] engine_results@.contains_key(engine) <==> last >= 0
                        &&& engine_results@.contains_key(engine) ==> engine_results@[engine] == (
                            lists[last],
                            outcomes[last]->Ok_0,
                        )
                    },
        {
            let mut traj_items: Vec<TrajectoryItem> = Vec::new();
            std::mem::swap(&mut traj_items, &mut pending_lists[k]);
            let mut result: Result<InferenceEngineOutput, InferenceError> = Err(
                InferenceError::EngineUnavailable,
            );
            std::mem::swap(&mut result, &mut pending[k]);
            assert(traj_items == lists[k as int]);
            assert(result == outcomes[k as int]);
            let output = match result {
                Ok(output) => output,
                Err(error) => {
                    proof {
                        assert(outcomes.take(answered as int)[k as int] is Err);
                        assert(is_first_failure(outcomes.take(answered as int), k as int));
                    }
                    return Err(error);
                },
            };
            engine_results.insert(engine_indices[k], (traj_items, output));
            proof {
                joined = joined + 1;
            }
        }
        assert(all_succeeded(outcomes.take(answered as int)));
        Ok(engine_results)
    }
}

} // verus!
