//! Even batching: contiguous, near-equal slices of a request, one per backend.

use vstd::arithmetic::div_mod::{lemma_fundamental_div_mod, lemma_mod_bound};
use vstd::arithmetic::mul::lemma_mul_is_distributive_add_other_way;
use vstd::prelude::*;

use crate::inference::assembly::{
    indices_within, names_position, no_position_twice, some_list_names,
};

verus! {

/// Items per backend: `num_items / num_engines`, rounded up.
pub open spec fn batch_size(num_items: nat, num_engines: nat) -> nat
    recommends
        num_engines > 0,
{
    if num_items % num_engines == 0 {
        num_items / num_engines
    } else {
        num_items / num_engines + 1
    }
}

/// First position of the slice of backend `engine`.
pub open spec fn batch_start(engine: nat, num_items: nat, num_engines: nat) -> nat {
    engine * batch_size(num_items, num_engines)
}

/// One past the last position of the slice of backend `engine`.
pub open spec fn batch_end(engine: nat, num_items: nat, num_engines: nat) -> nat {
    let full = (engine + 1) * batch_size(num_items, num_engines);
    if full <= num_items {
        full
    } else {
        num_items
    }
}

/// Backend `engine` gets a slice: it exists and its slice starts inside the
/// request.
pub open spec fn is_dispatched(engine: nat, num_items: nat, num_engines: nat) -> bool {
    engine < num_engines && batch_start(engine, num_items, num_engines) < num_items
}

/// Number of request items that the backends below `upto` receive together.
pub open spec fn dispatched_items(num_items: nat, num_engines: nat, upto: nat) -> nat
    decreases upto,
{
    if upto == 0 {
        0
    } else {
        let engine = (upto - 1) as nat;
        let before = dispatched_items(num_items, num_engines, engine);
        if is_dispatched(engine, num_items, num_engines) {
            (before + batch_end(engine, num_items, num_engines) - batch_start(
                engine,
                num_items,
                num_engines,
            )) as nat
        } else {
            before
        }
    }
}

/// The slice of one backend: positions `start..end` of the request.
#[derive(Clone, Copy, Debug, PartialEq, Eq)]
pub struct Batch {
    pub engine_index: usize,
    pub start: usize,
    pub end: usize,
}

/// The slices cover the request without gap or overlap, in backend order,
/// and none is longer than the batch size or empty.
pub proof fn lemma_batches_tile(num_items: nat, num_engines: nat, engine: nat)
    requires
        num_engines > 0,
    ensures
        num_engines * batch_size(num_items, num_engines) >= num_items,
        batch_start(0, num_items, num_engines) == 0,
        batch_start(engine + 1, num_items, num_engines) == batch_start(
            engine,
            num_items,
            num_engines,
        ) + batch_size(num_items, num_engines),
        is_dispatched(engine, num_items, num_engines) ==> {
            &&& 0 < batch_end(engine, num_items, num_engines) - batch_start(
                engine,
                num_items,
                num_engines,
            ) <= batch_size(num_items, num_engines)
            &&& batch_end(engine, num_items, num_engines) <= num_items
        },
        is_dispatched(engine + 1, num_items, num_engines) ==> {
            &&& is_dispatched(engine, num_items, num_engines)
            &&& batch_end(engine, num_items, num_engines) == batch_start(
                engine + 1,
                num_items,
                num_engines,
            )
        },
        is_dispatched(engine, num_items, num_engines) && !is_dispatched(
            engine + 1,
            num_items,
            num_engines,
        ) ==> batch_end(engine, num_items, num_engines) == num_items,
{
    let size = batch_size(num_items, num_engines);
    lemma_fundamental_div_mod(num_items as int, num_engines as int);
    lemma_mod_bound(num_items as int, num_engines as int);
    assert(num_engines * size >= num_items) by {
        lemma_mul_is_distributive_add_other_way(
            num_engines as int,
            (num_items / num_engines) as int,
            1,
        );
        assert(num_engines * (num_items / num_engines + 1) == num_engines * (num_items
            / num_engines) + num_engines) by (nonlinear_arith);
    }
    assert((engine + 1) * size == engine * size + size) by (nonlinear_arith);
    if is_dispatched(engine, num_items, num_engines) {
        assert(size > 0) by (nonlinear_arith)
            requires
                num_engines * size >= num_items,
                num_items > 0,
        ;
    }
    if engine + 1 >= num_engines && is_dispatched(engine, num_items, num_engines) {
        assert((engine + 1) * size >= num_engines * size) by (nonlinear_arith)
            requires
                engine + 1 >= num_engines,
        ;
    }
}

/// All request items are dispatched, each once: the slice sizes add up to
/// the number of items.
pub proof fn lemma_batches_total(num_items: nat, num_engines: nat)
    requires
        num_engines > 0,
    ensures
        dispatched_items(num_items, num_engines, num_engines) == num_items,
{
    lemma_dispatched_items_upto(num_items, num_engines, num_engines);
    lemma_batches_tile(num_items, num_engines, 0);
}

/// The backends below `upto` receive the first `upto * batch_size` items, or
/// all of them if there are fewer.
pub proof fn lemma_dispatched_items_upto(num_items: nat, num_engines: nat, upto: nat)
    requires
        num_engines > 0,
        upto <= num_engines,
    ensures
        dispatched_items(num_items, num_engines, upto) == if upto * batch_size(
            num_items,
            num_engines,
        ) <= num_items {
            upto * batch_size(num_items, num_engines)
        } else {
            num_items
        },
    decreases upto,
{
    let size = batch_size(num_items, num_engines);
    if upto > 0 {
        let engine = (upto - 1) as nat;
        lemma_dispatched_items_upto(num_items, num_engines, engine);
        lemma_batches_tile(num_items, num_engines, engine);
        assert(upto * size == engine * size + size) by (nonlinear_arith)
            requires
                upto == engine + 1,
        ;
    } else {
        assert(upto * size == 0) by (nonlinear_arith)
            requires
                upto == 0,
        ;
    }
}

/// Computes [`batch_size`].
pub fn batch_size_of(num_items: usize, num_engines: usize) -> (size: usize)
    requires
        num_engines > 0,
    ensures
        size == batch_size(num_items as nat, num_engines as nat),
{
    let quotient = num_items / num_engines;
    if num_items % num_engines == 0 {
        quotient
    } else {
        proof {
            lemma_fundamental_div_mod(num_items as int, num_engines as int);
            assert(num_engines >= 2) by {
                if num_engines == 1 {
                    assert(num_items as int % 1 == 0);
                }
            }
            assert(quotient * 2 <= num_items) by (nonlinear_arith)
                requires
                    num_engines >= 2,
                    num_items >= num_engines * quotient,
            ;
        }
        quotient + 1
    }
}

/// Splits `num_items` request items evenly over `num_engines` backends.
///
/// Backend `i` gets the contiguous slice that starts at `i * batch_size`;
/// backends whose slice would start beyond the request get none and are left
/// out. The slices are listed in backend order.
pub fn even_batches(num_items: usize, num_engines: usize) -> (batches: Vec<Batch>)
    requires
        num_engines > 0,
    ensures
        forall|engine: nat|
            #[trigger] is_dispatched(engine, num_items as nat, num_engines as nat) <==> engine
                < batches@.len(),
        forall|i: int|
            0 <= i < batches@.len() ==> {
                &&& (#[trigger] batches@[i]).engine_index == i
                &&& batches@[i].start == batch_start(i as nat, num_items as nat, num_engines as nat)
                &&& batches@[i].end == batch_end(i as nat, num_items as nat, num_engines as nat)
            },
{
    let size = batch_size_of(num_items, num_engines);
    let ghost n = num_items as nat;
    let ghost e = num_engines as nat;
    let mut batches: Vec<Batch> = Vec::new();
    let mut engine: usize = 0;
    let mut start: usize = 0;
    let mut done = false;
    while !done && engine < num_engines && start < num_items
        invariant
            num_engines > 0,
            n == num_items,
            e == num_engines,
            size == batch_size(n, e),
            engine <= num_engines,
            batches@.len() == engine,
            !done ==> start == batch_start(engine as nat, n, e),
            done ==> engine > 0 && batch_end((engine - 1) as nat, n, e) == n,
            forall|i: int|
                0 <= i < engine ==> {
                    &&& (#[trigger] batches@[i]).engine_index == i
                    &&& batches@[i].start == batch_start(i as nat, n, e)
                    &&& batches@[i].end == batch_end(i as nat, n, e)
                    &&& is_dispatched(i as nat, n, e)
                },
        decreases num_engines - engine, if done { 0int } else { 1int },
    {
        let ghost current = engine as nat;
        proof {
            lemma_batches_tile(n, e, current);
            assert(is_dispatched(current, n, e));
            assert(batch_start(current + 1, n, e) == start + size);
        }
        let end = if num_items - start <= size {
            num_items
        } else {
            start + size
        };
        assert(end == batch_end(current, n, e));
        batches.push(Batch { engine_index: engine, start, end });
        engine = engine + 1;
        if end == num_items {
            done = true;
        } else {
            start = end;
        }
        assert(engine as nat == current + 1);
    }
    proof {
        assert forall|other: nat| #[trigger] is_dispatched(other, n, e) <==> other
            < batches@.len() by {
            if other < batches@.len() {
                assert(batches@[other as int].engine_index == other);
            } else {
                lemma_not_dispatched_from(n, e, engine as nat, other);
            }
        }
    }
    batches
}

/// Once a backend gets no slice, no later backend gets one.
pub proof fn lemma_not_dispatched_from(num_items: nat, num_engines: nat, first: nat, engine: nat)
    requires
        num_engines > 0,
        first <= engine,
        !is_dispatched(first, num_items, num_engines) || (first > 0 && batch_end(
            (first - 1) as nat,
            num_items,
            num_engines,
        ) == num_items),
    ensures
        !is_dispatched(engine, num_items, num_engines),
{
    let size = batch_size(num_items, num_engines);
    if engine < num_engines {
        if first > 0 {
            lemma_batches_tile(num_items, num_engines, (first - 1) as nat);
        }
        assert(first * size >= num_items);
        assert(engine * size >= first * size) by (nonlinear_arith)
            requires
                engine >= first,
        ;
    }
}

/// The positions `start, start + 1, .., end - 1`.
pub open spec fn span(start: nat, end: nat) -> Seq<usize> {
    Seq::new((end - start) as nat, |j: int| (start + j) as usize)
}

/// `lists` holds, in backend order, the slice of each backend that even
/// batching gives one.
pub open spec fn is_even_tiling(lists: Seq<Seq<usize>>, num_items: nat, num_engines: nat) -> bool {
    &&& forall|engine: nat|
        #[trigger] is_dispatched(engine, num_items, num_engines) <==> engine < lists.len()
    &&& forall|k: int|
        0 <= k < lists.len() ==> #[trigger] lists[k] == span(
            batch_start(k as nat, num_items, num_engines),
            batch_end(k as nat, num_items, num_engines),
        )
}

/// Slices of later backends start where those of earlier ones have ended.
pub proof fn lemma_batches_ordered(num_items: nat, num_engines: nat, earlier: nat, later: nat)
    requires
        num_engines > 0,
        earlier < later,
    ensures
        batch_end(earlier, num_items, num_engines) <= batch_start(later, num_items, num_engines),
{
    let size = batch_size(num_items, num_engines);
    assert((earlier + 1) * size <= later * size) by (nonlinear_arith)
        requires
            earlier + 1 <= later,
    ;
}

/// Even batching names every position of the request exactly once, so the
/// slice sizes add up to the number of items and the slices, put one after
/// the other, are the request in its order.
pub proof fn lemma_even_tiling_covers(lists: Seq<Seq<usize>>, num_items: nat, num_engines: nat)
    requires
        num_engines > 0,
        num_items <= usize::MAX,
        is_even_tiling(lists, num_items, num_engines),
    ensures
        no_position_twice(lists, lists.len()),
        forall|k: int| 0 <= k < lists.len() ==> indices_within(#[trigger] lists[k], num_items),
        forall|k: int|
            0 <= k < lists.len() ==> 0 < (#[trigger] lists[k]).len() <= batch_size(
                num_items,
                num_engines,
            ),
        forall|position: int|
            0 <= position < num_items ==> #[trigger] some_list_names(lists, position),
        lists.flatten() == Seq::new(num_items, |i: int| i as usize),
{
    let size = batch_size(num_items, num_engines);
    assert forall|k: int| 0 <= k < lists.len() implies indices_within(
        #[trigger] lists[k],
        num_items,
    ) && 0 < lists[k].len() <= size by {
        assert(is_dispatched(k as nat, num_items, num_engines));
        lemma_batches_tile(num_items, num_engines, k as nat);
    }
    assert forall|g: int, j: int, h: int, k: int|
        0 <= g < lists.len() && 0 <= j < lists[g].len() && 0 <= h < lists.len() && 0 <= k
            < lists[h].len() && #[trigger] lists[g][j] == #[trigger] lists[h][k] implies g == h
        && j == k by {
        assert(is_dispatched(g as nat, num_items, num_engines));
        assert(is_dispatched(h as nat, num_items, num_engines));
        lemma_batches_tile(num_items, num_engines, g as nat);
        lemma_batches_tile(num_items, num_engines, h as nat);
        if g < h {
            lemma_batches_ordered(num_items, num_engines, g as nat, h as nat);
        }
        if h < g {
            lemma_batches_ordered(num_items, num_engines, h as nat, g as nat);
        }
    }
    assert forall|position: int| 0 <= position < num_items implies #[trigger] some_list_names(
        lists,
        position,
    ) by {
        lemma_batches_tile(num_items, num_engines, 0);
        assert(size > 0) by (nonlinear_arith)
            requires
                num_engines * size >= num_items,
                num_items > 0,
        ;
        let engine = (position / size as int) as nat;
        lemma_fundamental_div_mod(position, size as int);
        lemma_mod_bound(position, size as int);
        assert(engine * size == size * engine) by (nonlinear_arith);
        assert(engine < num_engines) by (nonlinear_arith)
            requires
                engine * size <= position,
                position < num_items,
                num_items <= num_engines * size,
        ;
        assert(is_dispatched(engine, num_items, num_engines));
        lemma_batches_tile(num_items, num_engines, engine);
        let local = position - engine * size;
        assert(lists[engine as int][local] == position);
        assert(names_position(lists[engine as int], lists[engine as int].len(), position));
    }
    lemma_tiling_flattens(lists, num_items, num_engines, lists.len());
    lemma_batches_tile(num_items, num_engines, 0);
    if lists.len() > 0 {
        let last = (lists.len() - 1) as nat;
        assert(is_dispatched(last, num_items, num_engines));
        assert(!is_dispatched(last + 1, num_items, num_engines));
        lemma_batches_tile(num_items, num_engines, last);
    } else {
        assert(!is_dispatched(0, num_items, num_engines));
    }
    assert(lists.take(lists.len() as int) =~= lists);
}

/// The first `upto` slices, put one after the other, are the positions
/// before the start of slice `upto`.
proof fn lemma_tiling_flattens(
    lists: Seq<Seq<usize>>,
    num_items: nat,
    num_engines: nat,
    upto: nat,
)
    requires
        num_engines > 0,
        num_items <= usize::MAX,
        is_even_tiling(lists, num_items, num_engines),
        upto <= lists.len(),
    ensures
        lists.take(upto as int).flatten() == Seq::new(
            if upto == 0 {
                0
            } else {
                batch_end((upto - 1) as nat, num_items, num_engines)
            },
            |i: int| i as usize,
        ),
    decreases upto,
{
    if upto == 0 {
        assert(lists.take(0).flatten() =~= Seq::<usize>::empty());
    } else {
        let last = (upto - 1) as nat;
        lemma_tiling_flattens(lists, num_items, num_engines, last);
        assert(is_dispatched(last, num_items, num_engines));
        lemma_batches_tile(num_items, num_engines, last);
        if last > 0 {
            assert(is_dispatched((last - 1) as nat, num_items, num_engines));
            lemma_batches_tile(num_items, num_engines, (last - 1) as nat);
        }
        assert(lists.take(upto as int) =~= lists.take(last as int).push(lists[last as int]));
        lists.take(last as int).lemma_flatten_push(lists[last as int]);
        assert(lists.take(upto as int).flatten() =~= Seq::new(
            batch_end(last, num_items, num_engines),
            |i: int| i as usize,
        ));
    }
}

/// Concatenation puts the answers of even batching back in request order:
/// where slice `k` is answered item by item by `values[k]`, the `j`-th answer
/// of slice `k` stands at position `lists[k][j]` of the concatenation, which
/// has one answer per request item.
pub proof fn lemma_concatenation_restores_order<T>(
    lists: Seq<Seq<usize>>,
    values: Seq<Seq<T>>,
    num_items: nat,
    num_engines: nat,
)
    requires
        num_engines > 0,
        num_items <= usize::MAX,
        is_even_tiling(lists, num_items, num_engines),
        values.len() == lists.len(),
        forall|k: int| 0 <= k < lists.len() ==> (#[trigger] values[k]).len() == lists[k].len(),
    ensures
        values.flatten().len() == num_items,
        forall|k: int, j: int|
            0 <= k < lists.len() && 0 <= j < lists[k].len() ==> values.flatten()[
            #[trigger] lists[k][j] as int] == values[k][j],
{
    lemma_concatenation_upto(lists, values, num_items, num_engines, lists.len());
    assert(values.take(lists.len() as int) =~= values);
    lemma_batches_tile(num_items, num_engines, 0);
    if lists.len() > 0 {
        let last = (lists.len() - 1) as nat;
        assert(is_dispatched(last, num_items, num_engines));
        assert(!is_dispatched(last + 1, num_items, num_engines));
        lemma_batches_tile(num_items, num_engines, last);
    } else {
        assert(!is_dispatched(0, num_items, num_engines));
    }
}

/// The answers of the first `upto` slices, concatenated, stand at the
/// positions of those slices.
proof fn lemma_concatenation_upto<T>(
    lists: Seq<Seq<usize>>,
    values: Seq<Seq<T>>,
    num_items: nat,
    num_engines: nat,
    upto: nat,
)
    requires
        num_engines > 0,
        num_items <= usize::MAX,
        is_even_tiling(lists, num_items, num_engines),
        values.len() == lists.len(),
        forall|k: int| 0 <= k < lists.len() ==> (#[trigger] values[k]).len() == lists[k].len(),
        upto <= lists.len(),
    ensures
        values.take(upto as int).flatten().len() == if upto == 0 {
            0
        } else {
            batch_end((upto - 1) as nat, num_items, num_engines)
        },
        forall|k: int, j: int|
            0 <= k < upto && 0 <= j < lists[k].len() ==> values.take(upto as int).flatten()[
            #[trigger] lists[k][j] as int] == values[k][j],
    decreases upto,
{
    if upto == 0 {
        assert(values.take(0).flatten() =~= Seq::<T>::empty());
    } else {
        let last = (upto - 1) as nat;
        lemma_concatenation_upto(lists, values, num_items, num_engines, last);
        assert(is_dispatched(last, num_items, num_engines));
        lemma_batches_tile(num_items, num_engines, last);
        if last > 0 {
            assert(is_dispatched((last - 1) as nat, num_items, num_engines));
            lemma_batches_tile(num_items, num_engines, (last - 1) as nat);
        }
        let before = values.take(last as int).flatten();
        let after = values.take(upto as int).flatten();
        assert(values.take(upto as int) =~= values.take(last as int).push(values[last as int]));
        values.take(last as int).lemma_flatten_push(values[last as int]);
        assert(after =~= before + values[last as int]);
        assert(values[last as int].len() == lists[last as int].len());
        assert forall|k: int, j: int| 0 <= k < upto && 0 <= j < lists[k].len() implies after[
        #[trigger] lists[k][j] as int] == values[k][j] by {
            assert(is_dispatched(k as nat, num_items, num_engines));
            lemma_batches_tile(num_items, num_engines, k as nat);
            if k < last {
                lemma_batches_ordered(num_items, num_engines, k as nat, last);
                assert(before[lists[k][j] as int] == values[k][j]);
            }
        }
    }
}

} // verus!
