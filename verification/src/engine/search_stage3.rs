//! Stage 3: the exact rerank. The candidates of stage 2 are ranked by their
//! cosine similarity to the query on the full vectors, and joined with
//! their metadata.

use serde_json::Value;
use uuid::Uuid;
use vstd::prelude::*;

use crate::engine::binary32::descending_key;
use crate::engine::binary32::descending_rank;
use crate::engine::binary32::less_than;
use crate::engine::probe::found_of;
use crate::engine::probe::first_unmeasurable;
use crate::engine::probe::gather;
use crate::engine::probe::unmeasurable_at;
use crate::engine::probe::Probe;
use crate::engine::probe::Unmeasurable;
use crate::engine::ranking::foremost;
use crate::engine::ranking::keys_of;
use crate::engine::ranking::lemma_least_ranks_first;
use crate::engine::ranking::lemma_ranking_is_ranking;
use crate::engine::ranking::lemma_ranking_keys_ascend;
use crate::engine::ranking::ranked_len;
use crate::engine::ranking::ranking;

verus! {

/// The keys by which scored candidates are ranked: most similar first, and
/// scores that are no numbers last.
pub open spec fn score_keys(found: Seq<(Uuid, (u32, Value))>) -> Seq<int> {
    Seq::new(found.len(), |j: int| descending_rank(found[j].1.0))
}

/// The `k` most similar of the scored candidates, most similar first, each
/// with its score and its metadata; among equal scores the candidate that
/// stage 2 ranked better comes first.
pub open spec fn reranked_of(found: Seq<(Uuid, (u32, Value))>, k: nat) -> Seq<(Uuid, u32, Value)> {
    let picks = ranking(score_keys(found), k);
    Seq::new(picks.len(), |j: int| (found[picks[j]].0, found[picks[j]].1.0, found[picks[j]].1.1))
}

/// Ranks the candidates by their cosine similarity on the full vectors and
/// keeps the `top_k` most similar, each with its metadata. Each candidate
/// comes with the binary32 pattern of its similarity; candidates missing
/// from the store are passed over; one that could not be measured fails the
/// stage.
pub fn full_rerank(probes: Vec<(Uuid, Probe<(u32, Value)>)>, top_k: usize) -> (outcome: Result<
    Vec<(Uuid, u32, Value)>,
    Unmeasurable,
>)
    ensures
        outcome is Err <==> exists|i: int| unmeasurable_at(probes@, i),
        outcome matches Err(failure) ==> first_unmeasurable(probes@, failure),
        outcome matches Ok(reranked) ==> reranked@ == reranked_of(
            found_of(probes@),
            top_k as nat,
        ),
{
    let found = match gather(probes) {
        Ok(found) => found,
        Err(failure) => {
            return Err(failure);
        },
    };
    let ghost scored = found@;
    let mut keyed: Vec<(u64, (Uuid, (u32, Value)))> = Vec::new();
    for pair in it: found
        invariant
            it.seq() == scored,
            keyed@.len() == it.index(),
            forall|j: int|
                0 <= j < keyed@.len() ==> #[trigger] keyed@[j] == (
                    descending_rank(scored[j].1.0) as u64,
                    scored[j],
                ),
    {
        let key = descending_key(pair.1.0);
        keyed.push((key, pair));
    }
    let ghost tagged = keyed@;
    let ghost picks = ranking(score_keys(scored), top_k as nat);
    let ranked = foremost(keyed, top_k);
    proof {
        assert(keys_of(tagged) =~= score_keys(scored));
        lemma_ranking_is_ranking(keys_of(tagged), top_k as nat);
    }
    let ghost chosen = ranked@;
    let mut reranked: Vec<(Uuid, u32, Value)> = Vec::new();
    for entry in it: ranked
        invariant
            it.seq() == chosen,
            reranked@.len() == it.index(),
            forall|j: int|
                0 <= j < reranked@.len() ==> #[trigger] reranked@[j] == (
                    chosen[j].1.0,
                    chosen[j].1.1.0,
                    chosen[j].1.1.1,
                ),
    {
        let (_, (id, (score, metadata))) = entry;
        reranked.push((id, score, metadata));
    }
    proof {
        assert forall|j: int| 0 <= j < reranked@.len() implies reranked@[j] == reranked_of(
            scored,
            top_k as nat,
        )[j] by {
            assert(chosen[j] == tagged[picks[j]]);
        }
        assert(reranked@ =~= reranked_of(scored, top_k as nat));
    }
    Ok(reranked)
}

/// Along the result of stage 3 scores never increase: no candidate is more
/// similar to the query than one that comes before it.
pub proof fn lemma_reranked_descending(found: Seq<(Uuid, (u32, Value))>, k: nat, a: int, b: int)
    requires
        0 <= a <= b < reranked_of(found, k).len(),
    ensures
        descending_rank(reranked_of(found, k)[a].1) <= descending_rank(reranked_of(found, k)[b].1),
        !less_than(reranked_of(found, k)[a].1, reranked_of(found, k)[b].1),
{
    lemma_ranking_is_ranking(score_keys(found), k);
    lemma_ranking_keys_ascend(score_keys(found), k, a, b);
}

/// Stage 3 returns as many results as candidates were scored, up to `k`.
pub proof fn lemma_reranked_len(found: Seq<(Uuid, (u32, Value))>, k: nat)
    ensures
        reranked_of(found, k).len() == ranked_len(k, found.len()),
{
    lemma_ranking_is_ranking(score_keys(found), k);
}

/// A candidate whose score ranks before every other candidate's comes first
/// in the result of stage 3.
pub proof fn lemma_best_score_first(found: Seq<(Uuid, (u32, Value))>, k: nat, best: int)
    requires
        k > 0,
        0 <= best < found.len(),
        forall|i: int|
            0 <= i < found.len() && i != best ==> descending_rank(found[best].1.0)
                < descending_rank(#[trigger] found[i].1.0),
    ensures
        reranked_of(found, k).len() > 0,
        reranked_of(found, k)[0] == (found[best].0, found[best].1.0, found[best].1.1),
{
    let keys = score_keys(found);
    assert forall|i: int| 0 <= i < keys.len() && i != best implies keys[best] < #[trigger] keys[i] by {
        assert(keys[i] == descending_rank(found[i].1.0));
    }
    lemma_least_ranks_first(keys, k, best);
}

} // verus!
