//! Stage 2: Matryoshka refinement. The candidates of stage 1 are ranked by
//! the cosine distance between the renormalised prefixes of their vectors
//! and of the query.

use uuid::Uuid;
use vstd::prelude::*;

use crate::engine::binary32::ascending_key;
use crate::engine::binary32::ascending_rank;
use crate::engine::binary32::less_than;
use crate::engine::probe::found_of;
use crate::engine::probe::first_unmeasurable;
use crate::engine::probe::gather;
use crate::engine::probe::unmeasurable_at;
use crate::engine::probe::Probe;
use crate::engine::probe::Unmeasurable;
use crate::engine::ranking::foremost;
use crate::engine::ranking::keys_of;
use crate::engine::ranking::lemma_least_ranks_first;
use crate::engine::ranking::lemma_ranking_is_ranking;
use crate::engine::ranking::lemma_ranking_keys_ascend;
use crate::engine::ranking::ranking;
use crate::engine::ranking::select;
use crate::engine::ranking::strip_keys;

verus! {

/// Length of the prefix that stage 2 compares: a third of the full
/// dimension, rounded down.
pub open spec fn short_dim(dim: nat) -> nat {
    dim / 3
}

/// Computes the length of the prefix that stage 2 compares.
pub fn refinement_dim(dim: usize) -> (m: usize)
    ensures
        m == short_dim(dim as nat),
{
    dim / 3
}

/// The keys by which measured candidates are ranked: nearest first, and
/// distances that are no numbers last.
pub open spec fn distance_keys(found: Seq<(Uuid, u32)>) -> Seq<int> {
    Seq::new(found.len(), |j: int| ascending_rank(found[j].1))
}

/// The `k` nearest of the measured candidates, nearest first; among equal
/// distances the candidate that stage 1 ranked better comes first.
pub open spec fn refined_of(found: Seq<(Uuid, u32)>, k: nat) -> Seq<(Uuid, u32)> {
    select(found, ranking(distance_keys(found), k))
}

/// Ranks the candidates by their cosine distance on the short prefix and
/// keeps the `top_k` nearest. Each candidate comes with the binary32
/// pattern of its distance; candidates missing from the store are passed
/// over; one that could not be measured fails the stage.
pub fn matryoshka_refinement(probes: Vec<(Uuid, Probe<u32>)>, top_k: usize) -> (outcome: Result<
    Vec<(Uuid, u32)>,
    Unmeasurable,
>)
    ensures
        outcome is Err <==> exists|i: int| unmeasurable_at(probes@, i),
        outcome matches Err(failure) ==> first_unmeasurable(probes@, failure),
        outcome matches Ok(refined) ==> refined@ == refined_of(found_of(probes@), top_k as nat),
{
    let found = match gather(probes) {
        Ok(found) => found,
        Err(failure) => {
            return Err(failure);
        },
    };
    let ghost measured = found@;
    let mut keyed: Vec<(u64, (Uuid, u32))> = Vec::new();
    for pair in it: found
        invariant
            it.seq() == measured,
            keyed@.len() == it.index(),
            forall|j: int|
                0 <= j < keyed@.len() ==> #[trigger] keyed@[j] == (
                    ascending_rank(measured[j].1) as u64,
                    measured[j],
                ),
    {
        keyed.push((ascending_key(pair.1), pair));
    }
    let ghost tagged = keyed@;
    let ranked = foremost(keyed, top_k);
    let refined = strip_keys(ranked);
    proof {
        assert(keys_of(tagged) =~= distance_keys(measured));
        lemma_ranking_is_ranking(keys_of(tagged), top_k as nat);
        assert(refined@ =~= refined_of(measured, top_k as nat));
    }
    Ok(refined)
}

/// Along the result of stage 2 distances never decrease: no candidate is
/// nearer than one that comes before it.
pub proof fn lemma_refined_ascending(found: Seq<(Uuid, u32)>, k: nat, a: int, b: int)
    requires
        0 <= a <= b < refined_of(found, k).len(),
    ensures
        ascending_rank(refined_of(found, k)[a].1) <= ascending_rank(refined_of(found, k)[b].1),
        !less_than(refined_of(found, k)[b].1, refined_of(found, k)[a].1),
{
    lemma_ranking_is_ranking(distance_keys(found), k);
    lemma_ranking_keys_ascend(distance_keys(found), k, a, b);
}

/// Stage 2 keeps as many candidates as were measured, up to `k`, and each
/// of them is one of the measured candidates.
pub proof fn lemma_refined_from_found(found: Seq<(Uuid, u32)>, k: nat)
    ensures
        refined_of(found, k).len() == (if k < found.len() {
            k
        } else {
            found.len()
        }),
        forall|j: int|
            0 <= j < refined_of(found, k).len() ==> found.contains(
                #[trigger] refined_of(found, k)[j],
            ),
{
    lemma_ranking_is_ranking(distance_keys(found), k);
    let picks = ranking(distance_keys(found), k);
    assert forall|j: int| 0 <= j < refined_of(found, k).len() implies found.contains(
        #[trigger] refined_of(found, k)[j],
    ) by {
        assert(refined_of(found, k)[j] == found[picks[j]]);
    }
}

/// A candidate whose distance ranks before every other candidate's comes
/// first in the result of stage 2.
pub proof fn lemma_nearest_first(found: Seq<(Uuid, u32)>, k: nat, nearest: int)
    requires
        k > 0,
        0 <= nearest < found.len(),
        forall|i: int|
            0 <= i < found.len() && i != nearest ==> ascending_rank(found[nearest].1)
                < ascending_rank(#[trigger] found[i].1),
    ensures
        refined_of(found, k).len() > 0,
        refined_of(found, k)[0] == found[nearest],
{
    let keys = distance_keys(found);
    assert forall|i: int| 0 <= i < keys.len() && i != nearest implies keys[nearest]
        < #[trigger] keys[i] by {
        assert(keys[i] == ascending_rank(found[i].1));
    }
    lemma_least_ranks_first(keys, k, nearest);
}

} // verus!
