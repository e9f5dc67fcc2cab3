//! Rank accounting for operations that are sent to every backend.

use vstd::prelude::*;

verus! {

/// Ranks occupied by the first `upto` backends together.
pub open spec fn tp_total(tp_sizes: Seq<usize>, upto: nat) -> nat
    decreases upto,
{
    if upto == 0 {
        0
    } else {
        tp_total(tp_sizes, (upto - 1) as nat) + tp_sizes[upto - 1] as nat
    }
}

/// First rank of backend `engine` in a group whose first rank is `start`:
/// `start` plus the ranks of all backends before it.
pub open spec fn rank_offset_of(tp_sizes: Seq<usize>, start: nat, engine: nat) -> nat {
    start + tp_total(tp_sizes, engine)
}

/// The rank ranges of two backends never overlap: the range of the earlier
/// one ends at or before the first rank of the later one.
pub proof fn lemma_rank_ranges_disjoint(
    tp_sizes: Seq<usize>,
    start: nat,
    earlier: nat,
    later: nat,
)
    requires
        earlier < later <= tp_sizes.len(),
    ensures
        rank_offset_of(tp_sizes, start, earlier) + tp_sizes[earlier as int] <= rank_offset_of(
            tp_sizes,
            start,
            later,
        ),
    decreases later,
{
    if earlier + 1 < later {
        lemma_rank_ranges_disjoint(tp_sizes, start, earlier, (later - 1) as nat);
    }
}

/// The total grows with the number of backends counted.
pub proof fn lemma_tp_total_monotonic(tp_sizes: Seq<usize>, fewer: nat, more: nat)
    requires
        fewer <= more,
    ensures
        tp_total(tp_sizes, fewer) <= tp_total(tp_sizes, more),
    decreases more,
{
    if fewer < more {
        lemma_tp_total_monotonic(tp_sizes, fewer, (more - 1) as nat);
    }
}

/// What `init_weight_update_communicator` is to be called with on one
/// backend.
#[derive(Debug, PartialEq, Eq)]
pub struct CommunicatorInit {
    pub master_addr: String,
    pub master_port: u16,
    pub rank_offset: usize,
    pub world_size: usize,
    pub group_name: String,
    pub backend: String,
    pub override_existing: bool,
}

/// Total tensor-parallel footprint of the backends, or `None` where it does
/// not fit the machine word.
pub fn checked_tp_size(tp_sizes: &[usize]) -> (total: Option<usize>)
    ensures
        total is Some <==> tp_total(tp_sizes@, tp_sizes@.len()) <= usize::MAX,
        total matches Some(sum) ==> sum == tp_total(tp_sizes@, tp_sizes@.len()),
{
    let mut sum: usize = 0;
    for engine in 0..tp_sizes.len()
        invariant
            sum == tp_total(tp_sizes@, engine as nat),
    {
        match sum.checked_add(tp_sizes[engine]) {
            Some(next) => {
                sum = next;
            },
            None => {
                proof {
                    lemma_tp_total_monotonic(tp_sizes@, (engine + 1) as nat, tp_sizes@.len());
                }
                return None;
            },
        }
    }
    Some(sum)
}

/// Total tensor-parallel footprint of the backends: the sum of their sizes.
pub fn tp_size(tp_sizes: &[usize]) -> (total: usize)
    requires
        tp_total(tp_sizes@, tp_sizes@.len()) <= usize::MAX,
    ensures
        total == tp_total(tp_sizes@, tp_sizes@.len()),
{
    let mut sum: usize = 0;
    for engine in 0..tp_sizes.len()
        invariant
            tp_total(tp_sizes@, tp_sizes@.len()) <= usize::MAX,
            sum == tp_total(tp_sizes@, engine as nat),
    {
        proof {
            lemma_tp_total_monotonic(tp_sizes@, (engine + 1) as nat, tp_sizes@.len());
        }
        sum = sum + tp_sizes[engine];
    }
    sum
}

/// Assigns every backend its rank range within one communication group.
///
/// Backend `i` starts at `rank_offset` plus the sizes of the backends before
/// it; everything else is handed to every backend unchanged.
pub fn plan_weight_update_communicator(
    tp_sizes: &[usize],
    master_addr: String,
    master_port: u16,
    rank_offset: usize,
    world_size: usize,
    group_name: String,
    backend: String,
    override_existing: bool,
) -> (calls: Vec<CommunicatorInit>)
    requires
        rank_offset + tp_total(tp_sizes@, tp_sizes@.len()) <= usize::MAX,
    ensures
        calls@.len() == tp_sizes@.len(),
        forall|engine: int|
            0 <= engine < calls@.len() ==> {
                &&& (#[trigger] calls@[engine]).rank_offset == rank_offset_of(
                    tp_sizes@,
                    rank_offset as nat,
                    engine as nat,
                )
                &&& calls@[engine].master_addr@ == master_addr@
                &&& calls@[engine].master_port == master_port
                &&& calls@[engine].world_size == world_size
                &&& calls@[engine].group_name@ == group_name@
                &&& calls@[engine].backend@ == backend@
                &&& calls@[engine].override_existing == override_existing
            },
{
    let mut calls: Vec<CommunicatorInit> = Vec::new();
    let mut rank_offset_count = rank_offset;
    for engine in 0..tp_sizes.len()
        invariant
            rank_offset + tp_total(tp_sizes@, tp_sizes@.len()) <= usize::MAX,
            rank_offset_count == rank_offset_of(tp_sizes@, rank_offset as nat, engine as nat),
            calls@.len() == engine,
            forall|i: int|
                0 <= i < engine ==> {
                    &&& (#[trigger] calls@[i]).rank_offset == rank_offset_of(
                        tp_sizes@,
                        rank_offset as nat,
                        i as nat,
                    )
                    &&& calls@[i].master_addr@ == master_addr@
                    &&& calls@[i].master_port == master_port
                    &&& calls@[i].world_size == world_size
                    &&& calls@[i].group_name@ == group_name@
                    &&& calls@[i].backend@ == backend@
                    &&& calls@[i].override_existing == override_existing
                },
    {
        proof {
            lemma_tp_total_monotonic(tp_sizes@, (engine + 1) as nat, tp_sizes@.len());
        }
        calls.push(
            CommunicatorInit {
                master_addr: master_addr.clone(),
                master_port,
                rank_offset: rank_offset_count,
                world_size,
                group_name: group_name.clone(),
                backend: backend.clone(),
                override_existing,
            },
        );
        rank_offset_count = rank_offset_count + tp_sizes[engine];
    }
    calls
}

/// Tells whether the rank ranges of the backends, starting at `rank_offset`,
/// fit the machine word.
pub fn rank_ranges_fit(tp_sizes: &[usize], rank_offset: usize) -> (fit: bool)
    ensures
        fit == (rank_offset + tp_total(tp_sizes@, tp_sizes@.len()) <= usize::MAX),
{
    match checked_tp_size(tp_sizes) {
        Some(total) => rank_offset.checked_add(total).is_some(),
        None => false,
    }
}

} // verus!
