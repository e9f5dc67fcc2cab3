//! Sticky routing: which backend serves a trajectory.

use std::collections::hash_map::DefaultHasher;
use std::hash::Hash;
use std::hash::Hasher;
use vstd::prelude::*;
use vstd::std_specs::hash::DefaultHasherAdditionalSpecFns;

use crate::inference::assembly::{
    indices_within, names_position, no_position_twice, some_list_names,
};

verus! {

/// State of a `DefaultHasher` after a string has been fed into one whose
/// state was `before`.
pub uninterp spec fn hasher_after_str(before: Seq<Seq<u8>>, text: Seq<char>) -> Seq<Seq<u8>>;

/// Feeds `text` into `hasher` through `<str as Hash>::hash`.
///
/// Trusted: the hasher's state afterwards is determined by its state before
/// and by the characters of `text`, and by nothing else.
#[verifier::external_body]
fn hash_str(text: &str, hasher: &mut DefaultHasher)
    ensures
        final(hasher)@ == hasher_after_str(old(hasher)@, text@),
{
    text.hash(hasher)
}

/// The 64-bit hash of a trajectory identifier: what a fresh `DefaultHasher`
/// reports after the identifier has been fed into it.
pub open spec fn trajectory_hash(trajectory_id: Seq<char>) -> u64 {
    DefaultHasher::spec_finish(hasher_after_str(Seq::empty(), trajectory_id))
}

/// The backend that serves `trajectory_id` among `num_engines` backends.
pub open spec fn engine_index(trajectory_id: Seq<char>, num_engines: nat) -> nat
    recommends
        num_engines > 0,
{
    ((trajectory_hash(trajectory_id) as usize) as nat) % num_engines
}

/// Computes [`engine_index`].
pub fn engine_index_of(trajectory_id: &str, num_engines: usize) -> (index: usize)
    requires
        num_engines > 0,
    ensures
        index == engine_index(trajectory_id@, num_engines as nat),
        index < num_engines,
{
    let mut hasher = DefaultHasher::new();
    hash_str(trajectory_id, &mut hasher);
    let hash = hasher.finish();
    (hash as usize) % num_engines
}

} // verus!

verus! {

/// The positions `0, 1, .., len - 1`.
pub open spec fn positions(len: nat) -> Seq<usize> {
    Seq::new(len, |i: int| i as usize)
}

/// The positions below `upto` whose trajectory is served by `engine`, in
/// ascending order.
pub open spec fn engine_group_upto(
    trajectory_ids: Seq<Seq<char>>,
    num_engines: nat,
    engine: nat,
    upto: nat,
) -> Seq<usize> {
    positions(upto).filter(
        |i: usize| engine_index(trajectory_ids[i as int], num_engines) == engine,
    )
}

/// The positions of a request whose trajectory is served by `engine`, in
/// ascending order.
pub open spec fn engine_group(
    trajectory_ids: Seq<Seq<char>>,
    num_engines: nat,
    engine: nat,
) -> Seq<usize> {
    engine_group_upto(trajectory_ids, num_engines, engine, trajectory_ids.len())
}

/// Extending the prefix by one position appends that position to the group of
/// its engine and leaves every other group alone.
pub proof fn lemma_engine_group_step(
    trajectory_ids: Seq<Seq<char>>,
    num_engines: nat,
    engine: nat,
    upto: nat,
)
    requires
        upto <= usize::MAX,
    ensures
        engine_group_upto(trajectory_ids, num_engines, engine, 0) == Seq::<usize>::empty(),
        engine_group_upto(trajectory_ids, num_engines, engine, upto + 1) == if engine_index(
            trajectory_ids[upto as int],
            num_engines,
        ) == engine {
            engine_group_upto(trajectory_ids, num_engines, engine, upto).push(upto as usize)
        } else {
            engine_group_upto(trajectory_ids, num_engines, engine, upto)
        },
{
    reveal(Seq::filter);
    let served = |i: usize| engine_index(trajectory_ids[i as int], num_engines) == engine;
    assert(positions(0).filter(served) == Seq::<usize>::empty());
    let longer = positions(upto + 1);
    assert(longer.drop_last() =~= positions(upto));
    assert(longer.last() == upto as usize);
}

/// What a group holds: exactly the positions below `upto` that its engine
/// serves, each once and in ascending order.
pub proof fn lemma_engine_group_members(
    trajectory_ids: Seq<Seq<char>>,
    num_engines: nat,
    engine: nat,
    upto: nat,
)
    requires
        upto <= usize::MAX,
    ensures
        engine_group_upto(trajectory_ids, num_engines, engine, upto).len() <= upto,
        forall|j: int|
            0 <= j < engine_group_upto(trajectory_ids, num_engines, engine, upto).len() ==> {
                let position = #[trigger] engine_group_upto(
                    trajectory_ids,
                    num_engines,
                    engine,
                    upto,
                )[j];
                &&& position < upto
                &&& engine_index(trajectory_ids[position as int], num_engines) == engine
            },
        forall|j: int, k: int|
            0 <= j < k < engine_group_upto(trajectory_ids, num_engines, engine, upto).len()
                ==> #[trigger] engine_group_upto(trajectory_ids, num_engines, engine, upto)[j]
                < #[trigger] engine_group_upto(trajectory_ids, num_engines, engine, upto)[k],
        forall|position: usize|
            position < upto && engine_index(trajectory_ids[position as int], num_engines)
                == engine ==> #[trigger] engine_group_upto(
                trajectory_ids,
                num_engines,
                engine,
                upto,
            ).contains(position),
    decreases upto,
{
    lemma_engine_group_step(trajectory_ids, num_engines, engine, 0);
    if upto > 0 {
        let shorter = engine_group_upto(trajectory_ids, num_engines, engine, (upto - 1) as nat);
        let group = engine_group_upto(trajectory_ids, num_engines, engine, upto);
        lemma_engine_group_members(trajectory_ids, num_engines, engine, (upto - 1) as nat);
        lemma_engine_group_step(trajectory_ids, num_engines, engine, (upto - 1) as nat);
        assert forall|position: usize|
            position < upto && engine_index(trajectory_ids[position as int], num_engines)
                == engine implies #[trigger] group.contains(position) by {
            if position < upto - 1 {
                assert(shorter.contains(position));
                let j = choose|j: int| 0 <= j < shorter.len() && shorter[j] == position;
                assert(group[j] == position);
            } else {
                assert(group[group.len() - 1] == position);
            }
        }
    }
}

/// Every position of a request belongs to the group of the engine that
/// serves its trajectory, and to no other group.
pub proof fn lemma_engine_groups_partition(
    trajectory_ids: Seq<Seq<char>>,
    num_engines: nat,
    position: usize,
)
    requires
        num_engines > 0,
        position < trajectory_ids.len() <= usize::MAX,
    ensures
        forall|engine: nat|
            #[trigger] engine_group(trajectory_ids, num_engines, engine).contains(position)
                <==> engine == engine_index(trajectory_ids[position as int], num_engines),
        engine_index(trajectory_ids[position as int], num_engines) < num_engines,
{
    assert forall|engine: nat|
        #[trigger] engine_group(trajectory_ids, num_engines, engine).contains(position)
            <==> engine == engine_index(trajectory_ids[position as int], num_engines) by {
        lemma_engine_group_members(trajectory_ids, num_engines, engine, trajectory_ids.len());
    }
    assert(engine_index(trajectory_ids[position as int], num_engines) < num_engines) by {
        vstd::arithmetic::div_mod::lemma_mod_bound(
            (trajectory_hash(trajectory_ids[position as int]) as usize) as int,
            num_engines as int,
        );
    }
}

/// `lists` holds the groups of the backends `engines`, which are all
/// different and include every backend that serves some position.
pub open spec fn is_trajectory_grouping(
    lists: Seq<Seq<usize>>,
    engines: Seq<usize>,
    trajectory_ids: Seq<Seq<char>>,
    num_engines: nat,
) -> bool {
    &&& lists.len() == engines.len()
    &&& forall|k: int|
        0 <= k < lists.len() ==> #[trigger] lists[k] == engine_group(
            trajectory_ids,
            num_engines,
            engines[k] as nat,
        )
    &&& forall|k: int, l: int|
        0 <= k < l < engines.len() ==> #[trigger] engines[k] != #[trigger] engines[l]
    &&& forall|engine: usize|
        engine < num_engines && (#[trigger] engine_group(
            trajectory_ids,
            num_engines,
            engine as nat,
        )).len() > 0 ==> engines.contains(engine)
}

/// Grouping by trajectory names every position of the request exactly once.
pub proof fn lemma_trajectory_grouping_covers(
    lists: Seq<Seq<usize>>,
    engines: Seq<usize>,
    trajectory_ids: Seq<Seq<char>>,
    num_engines: nat,
)
    requires
        num_engines > 0,
        trajectory_ids.len() <= usize::MAX,
        is_trajectory_grouping(lists, engines, trajectory_ids, num_engines),
    ensures
        no_position_twice(lists, lists.len()),
        forall|k: int|
            0 <= k < lists.len() ==> indices_within(#[trigger] lists[k], trajectory_ids.len()),
        forall|position: int|
            0 <= position < trajectory_ids.len() ==> #[trigger] some_list_names(lists, position),
{
    let len = trajectory_ids.len();
    assert forall|k: int| 0 <= k < lists.len() implies indices_within(
        #[trigger] lists[k],
        len,
    ) by {
        lemma_engine_group_members(trajectory_ids, num_engines, engines[k] as nat, len);
    }
    assert forall|g: int, j: int, h: int, k: int|
        0 <= g < lists.len() && 0 <= j < lists[g].len() && 0 <= h < lists.len() && 0 <= k
            < lists[h].len() && #[trigger] lists[g][j] == #[trigger] lists[h][k] implies g == h
        && j == k by {
        lemma_engine_group_members(trajectory_ids, num_engines, engines[g] as nat, len);
        lemma_engine_group_members(trajectory_ids, num_engines, engines[h] as nat, len);
        let position = lists[g][j];
        assert(engine_index(trajectory_ids[position as int], num_engines) == engines[g]);
        assert(engine_index(trajectory_ids[position as int], num_engines) == engines[h]);
        if j < k {
            assert(lists[g][j] < lists[g][k]);
        }
        if k < j {
            assert(lists[g][k] < lists[g][j]);
        }
    }
    assert forall|position: int| 0 <= position < len implies #[trigger] some_list_names(
        lists,
        position,
    ) by {
        lemma_engine_groups_partition(trajectory_ids, num_engines, position as usize);
        vstd::arithmetic::div_mod::lemma_mod_decreases(
            (trajectory_hash(trajectory_ids[position]) as usize) as nat,
            num_engines,
        );
        let engine = engine_index(trajectory_ids[position], num_engines) as usize;
        let group = engine_group(trajectory_ids, num_engines, engine as nat);
        assert(group.contains(position as usize));
        assert(group.len() > 0);
        assert(engines.contains(engine));
        let k = choose|k: int| 0 <= k < engines.len() && engines[k] == engine;
        let j = choose|j: int| 0 <= j < group.len() && group[j] == position as usize;
        assert(lists[k] == group);
        assert(lists[k][j] == position);
        assert(names_position(lists[k], lists[k].len(), position));
    }
}

/// Sticky routing: as long as the number of backends stays the same, the
/// same trajectory identifier is served by the same backend, in every call,
/// and that backend exists.
pub proof fn lemma_routing_is_sticky(
    trajectory_id: Seq<char>,
    again: Seq<char>,
    num_engines: nat,
)
    requires
        num_engines > 0,
        trajectory_id == again,
    ensures
        engine_index(trajectory_id, num_engines) == engine_index(again, num_engines),
        engine_index(trajectory_id, num_engines) < num_engines,
{
    vstd::arithmetic::div_mod::lemma_mod_bound(
        (trajectory_hash(trajectory_id) as usize) as int,
        num_engines as int,
    );
}

} // verus!
