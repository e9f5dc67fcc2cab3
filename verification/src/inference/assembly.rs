//! Taking request items apart by position and putting answers back.

use vstd::prelude::*;

use crate::inference::types::{InferenceEngineInputView};

verus! {

/// The items at `indices`, in the order of `indices`.
pub open spec fn gather<T>(items: Seq<T>, indices: Seq<usize>) -> Seq<T> {
    Seq::new(indices.len(), |j: int| items[indices[j] as int])
}

/// Every index addresses an item of a list of length `len`.
pub open spec fn indices_within(indices: Seq<usize>, len: nat) -> bool {
    forall|j: int| 0 <= j < indices.len() ==> #[trigger] indices[j] < len
}

/// The sub-request for the items at `indices`: the items of the shape in use,
/// the sampling configuration unchanged, and no trajectory identifiers.
pub open spec fn gathered_input(
    input: InferenceEngineInputView,
    indices: Seq<usize>,
    is_prompts: bool,
) -> InferenceEngineInputView {
    InferenceEngineInputView {
        prompts: if is_prompts {
            Some(gather(input.prompts->Some_0, indices))
        } else {
            None
        },
        prompt_token_ids: if is_prompts {
            None
        } else {
            Some(gather(input.prompt_token_ids->Some_0, indices))
        },
        sampling_params: input.sampling_params,
        trajectory_ids: None,
    }
}

/// `base` after `values[j]` has been written at `indices[j]` for each
/// `j < upto`, in ascending order of `j`.
pub open spec fn scatter<T>(base: Seq<T>, indices: Seq<usize>, values: Seq<T>, upto: nat) -> Seq<
    T,
>
    decreases upto,
{
    if upto == 0 {
        base
    } else {
        scatter(base, indices, values, (upto - 1) as nat).update(
            indices[upto - 1] as int,
            values[upto - 1],
        )
    }
}

/// `base` after the first `upto` groups have been scattered into it, one
/// group after the other: group `g` writes `values[g][j]` at `lists[g][j]`.
pub open spec fn scatter_groups<T>(
    base: Seq<T>,
    lists: Seq<Seq<usize>>,
    values: Seq<Seq<T>>,
    upto: nat,
) -> Seq<T>
    decreases upto,
{
    if upto == 0 {
        base
    } else {
        scatter(
            scatter_groups(base, lists, values, (upto - 1) as nat),
            lists[upto - 1],
            values[upto - 1],
            lists[upto - 1].len(),
        )
    }
}

/// Scattering keeps the length of the list it writes into.
pub proof fn lemma_scatter_len<T>(base: Seq<T>, indices: Seq<usize>, values: Seq<T>, upto: nat)
    requires
        upto <= indices.len(),
        indices_within(indices, base.len()),
    ensures
        scatter(base, indices, values, upto).len() == base.len(),
    decreases upto,
{
    if upto > 0 {
        lemma_scatter_len(base, indices, values, (upto - 1) as nat);
    }
}

/// Scattering groups keeps the length of the list it writes into.
pub proof fn lemma_scatter_groups_len<T>(
    base: Seq<T>,
    lists: Seq<Seq<usize>>,
    values: Seq<Seq<T>>,
    upto: nat,
)
    requires
        upto <= lists.len(),
        forall|g: int| 0 <= g < upto ==> indices_within(#[trigger] lists[g], base.len()),
    ensures
        scatter_groups(base, lists, values, upto).len() == base.len(),
    decreases upto,
{
    if upto > 0 {
        lemma_scatter_groups_len(base, lists, values, (upto - 1) as nat);
        lemma_scatter_len(
            scatter_groups(base, lists, values, (upto - 1) as nat),
            lists[upto - 1],
            values[upto - 1],
            lists[upto - 1].len(),
        );
    }
}

/// One of the first `upto` indices is `position`.
pub open spec fn names_position(indices: Seq<usize>, upto: nat, position: int) -> bool {
    exists|j: int| 0 <= j < upto && #[trigger] indices[j] == position
}

/// One of `lists` names `position`.
pub open spec fn some_list_names(lists: Seq<Seq<usize>>, position: int) -> bool {
    exists|g: int|
        0 <= g < lists.len() && names_position(#[trigger] lists[g], lists[g].len(), position)
}

/// No position is named twice by the first `upto` lists, neither within one
/// list nor by two of them.
pub open spec fn no_position_twice(lists: Seq<Seq<usize>>, upto: nat) -> bool {
    forall|g: int, j: int, h: int, k: int|
        0 <= g < upto && 0 <= j < lists[g].len() && 0 <= h < upto && 0 <= k < lists[h].len()
            && #[trigger] lists[g][j] == #[trigger] lists[h][k] ==> g == h && j == k
}

/// Group `g` has an answer for every item it lists, for each of the first
/// `upto` groups, and every index addresses a position below `len`.
pub open spec fn groups_fit<T>(
    lists: Seq<Seq<usize>>,
    values: Seq<Seq<T>>,
    len: nat,
    upto: nat,
) -> bool {
    &&& upto <= lists.len()
    &&& upto <= values.len()
    &&& forall|g: int|
        0 <= g < upto ==> indices_within(#[trigger] lists[g], len) && lists[g].len()
            <= values[g].len()
}

/// Scattering through indices that are all different puts each value at its
/// index and leaves every other position as it was.
pub proof fn lemma_scatter_places<T>(
    base: Seq<T>,
    indices: Seq<usize>,
    values: Seq<T>,
    upto: nat,
)
    requires
        upto <= indices.len(),
        indices_within(indices, base.len()),
        forall|j: int, k: int|
            0 <= j < k < upto ==> #[trigger] indices[j] != #[trigger] indices[k],
    ensures
        forall|j: int|
            0 <= j < upto ==> scatter(base, indices, values, upto)[#[trigger] indices[j] as int]
                == values[j],
        forall|position: int|
            0 <= position < base.len() && !names_position(indices, upto, position)
                ==> #[trigger] scatter(base, indices, values, upto)[position] == base[position],
    decreases upto,
{
    if upto > 0 {
        let before = scatter(base, indices, values, (upto - 1) as nat);
        lemma_scatter_places(base, indices, values, (upto - 1) as nat);
        lemma_scatter_len(base, indices, values, (upto - 1) as nat);
        assert forall|position: int|
            0 <= position < base.len() && !names_position(
                indices,
                upto,
                position,
            ) implies #[trigger] scatter(base, indices, values, upto)[position]
            == base[position] by {
            assert(indices[upto - 1] != position);
            assert(!names_position(indices, (upto - 1) as nat, position)) by {
                if names_position(indices, (upto - 1) as nat, position) {
                    let j = choose|j: int| 0 <= j < upto - 1 && #[trigger] indices[j] == position;
                    assert(indices[j] == position);
                }
            }
        }
    }
}

/// Where no position is named twice, every answer ends up at the position its
/// item came from, whatever the order of the groups, and a position that no
/// group names is left as it was.
pub proof fn lemma_scatter_groups_places<T>(
    base: Seq<T>,
    lists: Seq<Seq<usize>>,
    values: Seq<Seq<T>>,
    upto: nat,
)
    requires
        groups_fit(lists, values, base.len(), upto),
        no_position_twice(lists, upto),
    ensures
        scatter_groups(base, lists, values, upto).len() == base.len(),
        forall|g: int, j: int|
            0 <= g < upto && 0 <= j < lists[g].len() ==> scatter_groups(
                base,
                lists,
                values,
                upto,
            )[#[trigger] lists[g][j] as int] == values[g][j],
        forall|position: int|
            0 <= position < base.len() && (forall|g: int|
                0 <= g < upto ==> !names_position(#[trigger] lists[g], lists[g].len(), position))
                ==> #[trigger] scatter_groups(base, lists, values, upto)[position]
                == base[position],
    decreases upto,
{
    lemma_scatter_groups_len(base, lists, values, upto);
    if upto > 0 {
        let last = upto - 1;
        let before = scatter_groups(base, lists, values, last as nat);
        let after = scatter_groups(base, lists, values, upto);
        lemma_scatter_groups_len(base, lists, values, last as nat);
        lemma_scatter_groups_places(base, lists, values, last as nat);
        assert(indices_within(lists[last], base.len()));
        lemma_scatter_places(before, lists[last], values[last], lists[last].len());
        assert forall|g: int, j: int| 0 <= g < upto && 0 <= j < lists[g].len() implies after[
            #[trigger] lists[g][j] as int
        ] == values[g][j] by {
            if g < last {
                let position = lists[g][j] as int;
                assert(indices_within(lists[g], base.len()));
                assert(!names_position(lists[last], lists[last].len(), position)) by {
                    if names_position(lists[last], lists[last].len(), position) {
                        let k = choose|k: int|
                            0 <= k < lists[last].len() && #[trigger] lists[last][k] == position;
                        assert(lists[g][j] == lists[last][k]);
                    }
                }
                assert(after[position] == before[position]);
            }
        }
        assert forall|position: int|
            0 <= position < base.len() && (forall|g: int|
                0 <= g < upto ==> !names_position(
                    #[trigger] lists[g],
                    lists[g].len(),
                    position,
                )) implies #[trigger] after[position] == base[position] by {
            assert(!names_position(lists[last], lists[last].len(), position));
            assert(after[position] == before[position]);
        }
    }
}

/// Every one of the first `count` groups of `(lists, values)` also stands
/// among the first `other_count` groups of `(other_lists, other_values)`.
pub open spec fn groups_occur_in<T>(
    lists: Seq<Seq<usize>>,
    values: Seq<Seq<T>>,
    count: nat,
    other_lists: Seq<Seq<usize>>,
    other_values: Seq<Seq<T>>,
    other_count: nat,
) -> bool {
    forall|g: int|
        0 <= g < count ==> exists|h: int|
            0 <= h < other_count && #[trigger] other_lists[h] == #[trigger] lists[g]
                && other_values[h] == values[g]
}

/// Order-independence: two arrangements of the same groups of answers, in
/// which no position is named twice, scatter to the same list. The order in
/// which backends answer therefore never shows in the reassembled output.
pub proof fn lemma_scatter_groups_ignores_order<T>(
    base: Seq<T>,
    lists: Seq<Seq<usize>>,
    values: Seq<Seq<T>>,
    count: nat,
    other_lists: Seq<Seq<usize>>,
    other_values: Seq<Seq<T>>,
    other_count: nat,
)
    requires
        groups_fit(lists, values, base.len(), count),
        groups_fit(other_lists, other_values, base.len(), other_count),
        no_position_twice(lists, count),
        no_position_twice(other_lists, other_count),
        groups_occur_in(lists, values, count, other_lists, other_values, other_count),
        groups_occur_in(other_lists, other_values, other_count, lists, values, count),
    ensures
        scatter_groups(base, lists, values, count) == scatter_groups(
            base,
            other_lists,
            other_values,
            other_count,
        ),
{
    let one = scatter_groups(base, lists, values, count);
    let other = scatter_groups(base, other_lists, other_values, other_count);
    lemma_scatter_groups_places(base, lists, values, count);
    lemma_scatter_groups_places(base, other_lists, other_values, other_count);
    assert forall|position: int| 0 <= position < base.len() implies one[position]
        == other[position] by {
        if exists|g: int|
            0 <= g < count && names_position(#[trigger] lists[g], lists[g].len(), position) {
            let g = choose|g: int|
                0 <= g < count && names_position(#[trigger] lists[g], lists[g].len(), position);
            let j = choose|j: int| 0 <= j < lists[g].len() && #[trigger] lists[g][j] == position;
            let h = choose|h: int|
                0 <= h < other_count && #[trigger] other_lists[h] == #[trigger] lists[g]
                    && other_values[h] == values[g];
            assert(one[lists[g][j] as int] == values[g][j]);
            assert(other[other_lists[h][j] as int] == other_values[h][j]);
        } else {
            assert forall|h: int| 0 <= h < other_count implies !names_position(
                #[trigger] other_lists[h],
                other_lists[h].len(),
                position,
            ) by {
                let g = choose|g: int|
                    0 <= g < count && #[trigger] lists[g] == #[trigger] other_lists[h]
                        && values[g] == other_values[h];
                assert(!names_position(lists[g], lists[g].len(), position));
            }
            assert(one[position] == base[position]);
            assert(other[position] == base[position]);
        }
    }
    assert(one =~= other);
}

/// End to end: where every sub-request is answered item by item, and
/// `answer` is what a backend answers for an item, the reassembled output
/// holds at each position the answer for the request item at that position.
///
/// `lists` names every position once, sub-request `g` holds the items at
/// `lists[g]`, and `merged` holds each answer where its item came from.
pub proof fn lemma_answers_in_request_order<T, R>(
    items: Seq<T>,
    lists: Seq<Seq<usize>>,
    values: Seq<Seq<R>>,
    answer: spec_fn(T) -> R,
    merged: Seq<R>,
)
    requires
        merged.len() == items.len(),
        values.len() == lists.len(),
        forall|g: int| 0 <= g < lists.len() ==> indices_within(#[trigger] lists[g], items.len()),
        forall|position: int|
            0 <= position < items.len() ==> #[trigger] some_list_names(lists, position),
        forall|g: int|
            0 <= g < lists.len() ==> #[trigger] values[g] == gather(items, lists[g]).map_values(
                answer,
            ),
        forall|g: int, j: int|
            0 <= g < lists.len() && 0 <= j < lists[g].len() ==> merged[
            #[trigger] lists[g][j] as int] == values[g][j],
    ensures
        merged == items.map_values(answer),
{
    assert forall|position: int| 0 <= position < items.len() implies merged[position] == answer(
        items[position],
    ) by {
        assert(some_list_names(lists, position));
        let g = choose|g: int|
            0 <= g < lists.len() && names_position(#[trigger] lists[g], lists[g].len(), position);
        let j = choose|j: int| 0 <= j < lists[g].len() && #[trigger] lists[g][j] == position;
        assert(merged[lists[g][j] as int] == values[g][j]);
        assert(values[g] == gather(items, lists[g]).map_values(answer));
    }
    assert(merged =~= items.map_values(answer));
}

} // verus!
