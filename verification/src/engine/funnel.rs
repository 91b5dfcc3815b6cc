//! The search funnel: Hamming scan, Matryoshka refinement, exact rerank.
//!
//! The funnel neither reads the store nor measures vectors. It is driven
//! step by step: each step takes what the caller read or measured, runs one
//! stage on it, and says what to bring next, until it hands out the results.

use serde_json::Value;
use uuid::Uuid;
use vstd::prelude::*;

use crate::config::SearchStages;
use crate::engine::binary32::ascending_rank;
use crate::engine::binary32::descending_rank;
use crate::engine::binary32::less_than;
use crate::engine::bq::encode_bq;
use crate::engine::bq::pack_msb0;
use crate::engine::bq::sign_bits;
use crate::engine::hamming::hamming;
use crate::engine::ident::uuid_bytes;
use crate::engine::probe::first_unmeasurable;
use crate::engine::probe::found_marks;
use crate::engine::probe::found_of;
use crate::engine::probe::unmeasurable_at;
use crate::engine::probe::Probe;
use crate::engine::probe::Unmeasurable;
use crate::engine::probe::lemma_found_of_none;
use crate::engine::ranking::kept;
use crate::engine::ranking::lemma_kept;
use crate::engine::ranking::lemma_ranking_is_ranking;
use crate::engine::search_stage1::comparable;
use crate::engine::search_stage1::row_distances;
use crate::engine::search_stage2::distance_keys;
use crate::engine::search_stage2::lemma_nearest_first;
use crate::engine::search_stage3::lemma_reranked_len;
use crate::engine::search_stage1::bad_key;
use crate::engine::search_stage1::hamming_scan;
use crate::engine::search_stage1::lemma_only_match_is_nearest;
use crate::engine::search_stage1::nearest_rows;
use crate::engine::search_stage1::BitRow;
use crate::engine::search_stage1::ScanError;
use crate::engine::search_stage1::SearchResult;
use crate::engine::search_stage2::matryoshka_refinement;
use crate::engine::search_stage2::refined_of;
use crate::engine::search_stage2::refinement_dim;
use crate::engine::search_stage2::short_dim;
use crate::engine::search_stage3::full_rerank;
use crate::engine::search_stage3::lemma_best_score_first;
use crate::engine::search_stage3::lemma_reranked_descending;
use crate::engine::search_stage3::reranked_of;
use crate::error::ErrorKind;

verus! {

/// One result of a search.
#[derive(Debug, Clone)]
pub struct FunnelResult {
    /// The document.
    pub id: Uuid,
    /// Binary32 pattern of the cosine similarity to the query.
    pub score: u32,
    /// The document's metadata.
    pub metadata: Value,
    /// Further context that a caller attached, if any.
    pub context: Option<Value>,
}

impl FunnelResult {
    /// The same result with `context` attached in place of what was there.
    pub fn with_context(self, context: Option<Value>) -> (result: FunnelResult)
        ensures
            result.id == self.id,
            result.score == self.score,
            result.metadata == self.metadata,
            result.context == context,
    {
        FunnelResult { id: self.id, score: self.score, metadata: self.metadata, context }
    }
}

/// Why a search failed.
#[derive(Debug, Clone)]
pub enum FunnelError {
    /// The query has more components than can be encoded.
    QueryTooLong,
    /// A row of the bit index has a key that is no identifier.
    InvalidKey(ScanError),
    /// A candidate's vector could not be measured against the query.
    Unmeasurable(Unmeasurable),
    /// The caller called the search off.
    Cancelled,
    /// The caller's answer is not the one that the search was waiting for.
    OutOfStep,
}

impl FunnelError {
    /// The kind of this failure.
    pub fn kind(&self) -> (kind: ErrorKind)
        ensures
            kind == (match *self {
                FunnelError::Cancelled => ErrorKind::Cancelled,
                _ => ErrorKind::InvalidArgument,
            }),
    {
        match self {
            FunnelError::Cancelled => ErrorKind::Cancelled,
            _ => ErrorKind::InvalidArgument,
        }
    }
}

/// Which answer a search is waiting for.
#[derive(Debug, Clone, Copy, PartialEq, Eq, Structural)]
pub enum Stage {
    /// The rows of the bit index.
    Scanning,
    /// The distances of the stage-1 candidates on the short prefix.
    Refining,
    /// The scores and metadata of the stage-2 candidates.
    Reranking,
    /// None: the search is over.
    Finished,
}

/// A search under way.
#[derive(Debug)]
pub struct Search {
    /// What the search is waiting for.
    pub stage: Stage,
    /// The packed sign bits of the query.
    pub query_bits: Vec<u8>,
    /// Number of components of the query.
    pub dim: usize,
    /// Candidate counts of the first two stages.
    pub stages: SearchStages,
    /// Number of results asked for.
    pub top_k: usize,
    /// The candidates that the caller was last asked to measure, best first.
    pub candidates: Vec<Uuid>,
}

/// What the caller is to do next.
#[derive(Debug)]
pub enum Request {
    /// Read every row of the bit index.
    ReadBitIndex,
    /// Measure each candidate against the query on the first `dim`
    /// components, renormalised: its cosine distance.
    MeasureShort { candidates: Vec<Uuid>, dim: usize },
    /// Measure each candidate against the query on the full vectors, its
    /// cosine similarity, and fetch its metadata.
    MeasureFull { candidates: Vec<Uuid> },
    /// Nothing: the search is over, with these results or this failure.
    Finish(Result<Vec<FunnelResult>, FunnelError>),
}

/// What the caller brings back.
#[derive(Debug)]
pub enum Answer {
    /// The rows of the bit index, in the order of the index.
    BitRows(Vec<BitRow>),
    /// For each candidate asked about, in the order asked, the binary32
    /// pattern of its cosine distance on the short prefix.
    ShortDistances(Vec<Probe<u32>>),
    /// For each candidate asked about, in the order asked, the binary32
    /// pattern of its cosine similarity on the full vectors, and its
    /// metadata.
    FullScores(Vec<Probe<(u32, Value)>>),
    /// The search is called off.
    Cancelled,
}

/// The orchestrator of the three stages.
#[derive(Debug, Clone, Copy)]
pub struct SearchFunnel {
    /// Candidate counts of the first two stages.
    pub stages: SearchStages,
}

/// Largest number of components of a query.
pub open spec fn max_dim() -> nat {
    (usize::MAX / 8) as nat
}

/// The candidates paired with what was measured of them, place by place.
pub open spec fn paired<T>(candidates: Seq<Uuid>, probes: Seq<Probe<T>>) -> Seq<(Uuid, Probe<T>)> {
    Seq::new(candidates.len(), |i: int| (candidates[i], probes[i]))
}

/// Whether `results` are what stage 3 hands out, as results of the search:
/// the same documents, scores and metadata, and no context.
pub open spec fn results_of(reranked: Seq<(Uuid, u32, Value)>, results: Seq<FunnelResult>) -> bool {
    &&& results.len() == reranked.len()
    &&& forall|j: int|
        0 <= j < results.len() ==> {
            &&& (#[trigger] results[j]).id == reranked[j].0
            &&& results[j].score == reranked[j].1
            &&& results[j].metadata == reranked[j].2
            &&& results[j].context is None
        }
}

/// Whether the request closes the search with no results and no failure.
pub open spec fn finishes_empty(request: Request) -> bool {
    request matches Request::Finish(Ok(results)) && results@.len() == 0
}

impl Search {
    /// Whether the search is in a state that a funnel can have brought it to.
    pub open spec fn wf(&self) -> bool {
        &&& self.dim <= max_dim()
        &&& self.query_bits@.len() * 8 <= self.dim + 7
    }

    /// Whether `after` is the same search as `self`: the same query, the
    /// same counts.
    pub open spec fn continued_by(&self, after: Search) -> bool {
        &&& after.query_bits@ == self.query_bits@
        &&& after.dim == self.dim
        &&& after.stages == self.stages
        &&& after.top_k == self.top_k
    }

    /// What stage 1 makes of the rows of the bit index: a failure for a
    /// malformed key, no results when nothing is comparable, else the
    /// nearest rows as candidates for stage 2.
    pub open spec fn scanned(&self, rows: Seq<BitRow>, after: Search, request: Request) -> bool {
        let nearest = nearest_rows(rows, self.query_bits@, self.stages.stage1_k as nat);
        if exists|i: int| bad_key(rows, i) {
            &&& after.stage is Finished
            &&& request matches Request::Finish(
                Err(FunnelError::InvalidKey(ScanError::InvalidKey { row, len })),
            )
            &&& bad_key(rows, row as int)
            &&& len == rows[row as int].key@.len()
            &&& forall|i: int| 0 <= i < row ==> !bad_key(rows, i)
        } else if nearest.len() == 0 {
            after.stage is Finished && finishes_empty(request)
        } else {
            &&& after.stage is Refining
            &&& request matches Request::MeasureShort { candidates, dim }
            &&& dim == short_dim(self.dim as nat)
            &&& candidates@ == after.candidates@
            &&& candidates@.len() == nearest.len()
            &&& forall|j: int|
                0 <= j < nearest.len() ==> uuid_bytes(#[trigger] candidates@[j])
                    == rows[nearest[j]].key@
        }
    }

    /// What stage 2 makes of the measured candidates: a failure for one
    /// that could not be measured, no results when none was found, else
    /// the nearest as candidates for stage 3.
    pub open spec fn refined(&self, probes: Seq<Probe<u32>>, after: Search, request: Request) -> bool {
        let measured = paired(self.candidates@, probes);
        let nearest = refined_of(found_of(measured), self.stages.stage2_k as nat);
        if exists|i: int| unmeasurable_at(measured, i) {
            &&& after.stage is Finished
            &&& request matches Request::Finish(Err(FunnelError::Unmeasurable(failure)))
            &&& first_unmeasurable(measured, failure)
        } else if nearest.len() == 0 {
            after.stage is Finished && finishes_empty(request)
        } else {
            &&& after.stage is Reranking
            &&& request matches Request::MeasureFull { candidates }
            &&& candidates@ == after.candidates@
            &&& candidates@ == Seq::new(nearest.len(), |j: int| nearest[j].0)
        }
    }

    /// What stage 3 makes of the scored candidates: a failure for one that
    /// could not be measured, else the most similar as results.
    pub open spec fn reranked(
        &self,
        probes: Seq<Probe<(u32, Value)>>,
        after: Search,
        request: Request,
    ) -> bool {
        let scored = paired(self.candidates@, probes);
        &&& after.stage is Finished
        &&& if exists|i: int| unmeasurable_at(scored, i) {
            request matches Request::Finish(Err(FunnelError::Unmeasurable(failure)))
                && first_unmeasurable(scored, failure)
        } else {
            request matches Request::Finish(Ok(results)) && results_of(
                reranked_of(found_of(scored), self.top_k as nat),
                results@,
            )
        }
    }

    /// How a search goes on: `after` and `request` are what the funnel makes
    /// of `answer` in the state `self`.
    pub open spec fn resumed(&self, answer: Answer, after: Search, request: Request) -> bool {
        &&& self.continued_by(after)
        &&& match (self.stage, answer) {
            (Stage::Finished, _) => after.stage is Finished && request matches Request::Finish(
                Err(FunnelError::OutOfStep),
            ),
            (_, Answer::Cancelled) => after.stage is Finished && request matches Request::Finish(
                Err(FunnelError::Cancelled),
            ),
            (Stage::Scanning, Answer::BitRows(rows)) => self.scanned(rows@, after, request),
            (Stage::Refining, Answer::ShortDistances(probes)) if probes@.len()
                == self.candidates@.len() => self.refined(probes@, after, request),
            (Stage::Reranking, Answer::FullScores(probes)) if probes@.len()
                == self.candidates@.len() => self.reranked(probes@, after, request),
            _ => after.stage is Finished && request matches Request::Finish(
                Err(FunnelError::OutOfStep),
            ),
        }
    }
}

/// Pairs each candidate with what was measured of it.
fn pair_up<T>(candidates: &Vec<Uuid>, probes: Vec<Probe<T>>) -> (pairs: Vec<(Uuid, Probe<T>)>)
    requires
        candidates@.len() == probes@.len(),
    ensures
        pairs@ == paired(candidates@, probes@),
{
    let ghost all = probes@;
    let count = candidates.len();
    let mut pairs: Vec<(Uuid, Probe<T>)> = Vec::new();
    let mut place: usize = 0;
    for probe in it: probes
        invariant
            it.seq() == all,
            all.len() == candidates@.len() == count,
            place == it.index(),
            pairs@.len() == place,
            forall|i: int| 0 <= i < place ==> #[trigger] pairs@[i] == (candidates@[i], all[i]),
    {
        pairs.push((candidates[place], probe));
        place += 1;
    }
    assert(pairs@ =~= paired(candidates@, all));
    pairs
}

/// The identifiers of the stage-1 candidates, in their order.
fn scanned_ids(hits: &Vec<SearchResult>) -> (ids: Vec<Uuid>)
    ensures
        ids@.len() == hits@.len(),
        forall|j: int| 0 <= j < ids@.len() ==> #[trigger] ids@[j] == hits@[j].id,
{
    let mut ids: Vec<Uuid> = Vec::new();
    let mut j: usize = 0;
    while j < hits.len()
        invariant
            j <= hits@.len(),
            ids@.len() == j,
            forall|q: int| 0 <= q < j ==> #[trigger] ids@[q] == hits@[q].id,
        decreases hits@.len() - j,
    {
        ids.push(hits[j].id);
        j += 1;
    }
    ids
}

/// The identifiers of the stage-2 candidates, in their order.
fn refined_ids(nearest: &Vec<(Uuid, u32)>) -> (ids: Vec<Uuid>)
    ensures
        ids@ == Seq::new(nearest@.len(), |j: int| nearest@[j].0),
{
    let mut ids: Vec<Uuid> = Vec::new();
    let mut j: usize = 0;
    while j < nearest.len()
        invariant
            j <= nearest@.len(),
            ids@.len() == j,
            forall|q: int| 0 <= q < j ==> #[trigger] ids@[q] == nearest@[q].0,
        decreases nearest@.len() - j,
    {
        ids.push(nearest[j].0);
        j += 1;
    }
    assert(ids@ =~= Seq::new(nearest@.len(), |j: int| nearest@[j].0));
    ids
}

/// A copy of a list of identifiers.
fn copy_ids(ids: &Vec<Uuid>) -> (copy: Vec<Uuid>)
    ensures
        copy@ == ids@,
{
    let mut copy: Vec<Uuid> = Vec::new();
    let mut j: usize = 0;
    while j < ids.len()
        invariant
            j <= ids@.len(),
            copy@.len() == j,
            forall|q: int| 0 <= q < j ==> #[trigger] copy@[q] == ids@[q],
        decreases ids@.len() - j,
    {
        copy.push(ids[j]);
        j += 1;
    }
    assert(copy@ =~= ids@);
    copy
}

/// The results of stage 3 as results of the search.
fn into_results(reranked: Vec<(Uuid, u32, Value)>) -> (results: Vec<FunnelResult>)
    ensures
        results_of(reranked@, results@),
{
    let ghost all = reranked@;
    let mut results: Vec<FunnelResult> = Vec::new();
    for entry in it: reranked
        invariant
            it.seq() == all,
            results@.len() == it.index(),
            forall|j: int|
                0 <= j < results@.len() ==> {
                    &&& (#[trigger] results@[j]).id == all[j].0
                    &&& results@[j].score == all[j].1
                    &&& results@[j].metadata == all[j].2
                    &&& results@[j].context is None
                },
    {
        let (id, score, metadata) = entry;
        results.push(FunnelResult { id, score, metadata, context: None });
    }
    results
}

impl SearchFunnel {
    /// A funnel with the given candidate counts.
    pub fn new(stages: SearchStages) -> (funnel: Self)
        ensures
            funnel.stages == stages,
    {
        SearchFunnel { stages }
    }

    /// Begins a search for the `top_k` documents most similar to the query,
    /// given as binary32 patterns. The caller is asked for the rows of the
    /// bit index, unless the query is too long to be encoded.
    pub fn search(&self, query: &[u32], top_k: usize) -> (begun: (Search, Request))
        ensures
            begun.0.stages == self.stages,
            begun.0.top_k == top_k,
            begun.0.dim == query@.len() || query@.len() > max_dim(),
            begun.0.candidates@.len() == 0,
            begun.0.wf(),
            query@.len() <= max_dim() ==> {
                &&& begun.0.stage is Scanning
                &&& begun.0.query_bits@ == pack_msb0(sign_bits(query@))
                &&& begun.1 is ReadBitIndex
            },
            query@.len() > max_dim() ==> {
                &&& begun.0.stage is Finished
                &&& begun.1 matches Request::Finish(Err(FunnelError::QueryTooLong))
            },
    {
        if query.len() > usize::MAX / 8 {
            let over = Search {
                stage: Stage::Finished,
                query_bits: Vec::new(),
                dim: 0,
                stages: self.stages,
                top_k,
                candidates: Vec::new(),
            };
            return (over, Request::Finish(Err(FunnelError::QueryTooLong)));
        }
        let begun = Search {
            stage: Stage::Scanning,
            query_bits: encode_bq(query),
            dim: query.len(),
            stages: self.stages,
            top_k,
            candidates: Vec::new(),
        };
        (begun, Request::ReadBitIndex)
    }

    /// Goes on with a search: runs the stage that `answer` is for and says
    /// what comes next. An answer that the search was not waiting for, or
    /// that does not cover the candidates asked about, ends the search with
    /// a failure, as does calling it off.
    pub fn resume(&self, search: Search, answer: Answer) -> (next: (Search, Request))
        requires
            search.wf(),
        ensures
            next.0.wf(),
            search.resumed(answer, next.0, next.1),
    {
        let Search { stage, query_bits, dim, stages, top_k, candidates } = search;
        let ghost before = search;
        match (stage, answer) {
            (Stage::Finished, _) => {
                let over = Search {
                    stage: Stage::Finished,
                    query_bits,
                    dim,
                    stages,
                    top_k,
                    candidates,
                };
                (over, Request::Finish(Err(FunnelError::OutOfStep)))
            },
            (_, Answer::Cancelled) => {
                let over = Search {
                    stage: Stage::Finished,
                    query_bits,
                    dim,
                    stages,
                    top_k,
                    candidates,
                };
                (over, Request::Finish(Err(FunnelError::Cancelled)))
            },
            (Stage::Scanning, Answer::BitRows(rows)) => {
                match hamming_scan(&rows, query_bits.as_slice(), stages.stage1_k) {
                    Err(failure) => {
                        let over = Search {
                            stage: Stage::Finished,
                            query_bits,
                            dim,
                            stages,
                            top_k,
                            candidates,
                        };
                        (over, Request::Finish(Err(FunnelError::InvalidKey(failure))))
                    },
                    Ok(hits) => {
                        if hits.len() == 0 {
                            let over = Search {
                                stage: Stage::Finished,
                                query_bits,
                                dim,
                                stages,
                                top_k,
                                candidates,
                            };
                            (over, Request::Finish(Ok(Vec::new())))
                        } else {
                            let ids = scanned_ids(&hits);
                            let asked = copy_ids(&ids);
                            let waiting = Search {
                                stage: Stage::Refining,
                                query_bits,
                                dim,
                                stages,
                                top_k,
                                candidates: ids,
                            };
                            (
                                waiting,
                                Request::MeasureShort {
                                    candidates: asked,
                                    dim: refinement_dim(dim),
                                },
                            )
                        }
                    },
                }
            },
            (Stage::Refining, Answer::ShortDistances(probes)) => {
                if probes.len() != candidates.len() {
                    let over = Search {
                        stage: Stage::Finished,
                        query_bits,
                        dim,
                        stages,
                        top_k,
                        candidates,
                    };
                    return (over, Request::Finish(Err(FunnelError::OutOfStep)));
                }
                let measured = pair_up(&candidates, probes);
                match matryoshka_refinement(measured, stages.stage2_k) {
                    Err(failure) => {
                        let over = Search {
                            stage: Stage::Finished,
                            query_bits,
                            dim,
                            stages,
                            top_k,
                            candidates,
                        };
                        (over, Request::Finish(Err(FunnelError::Unmeasurable(failure))))
                    },
                    Ok(nearest) => {
                        if nearest.len() == 0 {
                            let over = Search {
                                stage: Stage::Finished,
                                query_bits,
                                dim,
                                stages,
                                top_k,
                                candidates,
                            };
                            (over, Request::Finish(Ok(Vec::new())))
                        } else {
                            let ids = refined_ids(&nearest);
                            let asked = copy_ids(&ids);
                            let waiting = Search {
                                stage: Stage::Reranking,
                                query_bits,
                                dim,
                                stages,
                                top_k,
                                candidates: ids,
                            };
                            (waiting, Request::MeasureFull { candidates: asked })
                        }
                    },
                }
            },
            (Stage::Reranking, Answer::FullScores(probes)) => {
                if probes.len() != candidates.len() {
                    let over = Search {
                        stage: Stage::Finished,
                        query_bits,
                        dim,
                        stages,
                        top_k,
                        candidates,
                    };
                    return (over, Request::Finish(Err(FunnelError::OutOfStep)));
                }
                let scored = pair_up(&candidates, probes);
                let outcome = full_rerank(scored, top_k);
                let over = Search {
                    stage: Stage::Finished,
                    query_bits,
                    dim,
                    stages,
                    top_k,
                    candidates,
                };
                match outcome {
                    Err(failure) => (
                        over,
                        Request::Finish(Err(FunnelError::Unmeasurable(failure))),
                    ),
                    Ok(reranked) => (over, Request::Finish(Ok(into_results(reranked)))),
                }
            },
            (_, _) => {
                let over = Search {
                    stage: Stage::Finished,
                    query_bits,
                    dim,
                    stages,
                    top_k,
                    candidates,
                };
                (over, Request::Finish(Err(FunnelError::OutOfStep)))
            },
        }
    }
}

/// A search of an empty bit index ends at once, with no results and no
/// failure.
pub proof fn lemma_empty_index_finishes_empty(search: Search, after: Search, request: Request)
    requires
        search.scanned(Seq::<BitRow>::empty(), after, request),
    ensures
        after.stage is Finished,
        finishes_empty(request),
{
    let rows = Seq::<BitRow>::empty();
    let places = kept(comparable(rows, search.query_bits@), 0);
    assert(places.len() == 0);
    lemma_ranking_is_ranking(
        row_distances(rows, search.query_bits@, places),
        search.stages.stage1_k as nat,
    );
}

/// A search in which stage 2 finds none of its candidates in the store ends
/// with no results and no failure.
pub proof fn lemma_no_candidates_finishes_empty(
    search: Search,
    probes: Seq<Probe<u32>>,
    after: Search,
    request: Request,
)
    requires
        probes.len() == search.candidates@.len(),
        search.refined(probes, after, request),
        forall|i: int| 0 <= i < probes.len() ==> probes[i] is Missing,
    ensures
        after.stage is Finished,
        finishes_empty(request),
{
    let measured = paired(search.candidates@, probes);
    assert forall|i: int| 0 <= i < measured.len() implies !(measured[i].1 is Found) by {
        assert(probes[i] is Missing);
    }
    lemma_found_of_none(measured);
    lemma_ranking_is_ranking(distance_keys(found_of(measured)), search.stages.stage2_k as nat);
    assert(!exists|i: int| unmeasurable_at(measured, i)) by {
        assert forall|i: int| !unmeasurable_at(measured, i) by {
            if 0 <= i < measured.len() {
                assert(probes[i] is Missing);
            }
        }
    }
}

/// The results of a search are at most as many as were asked for, and their
/// scores never increase: no result is more similar to the query than one
/// that comes before it.
pub proof fn lemma_results_descending(
    search: Search,
    probes: Seq<Probe<(u32, Value)>>,
    after: Search,
    request: Request,
    a: int,
    b: int,
)
    requires
        search.reranked(probes, after, request),
        request matches Request::Finish(Ok(results)) && 0 <= a <= b < results@.len(),
    ensures
        request matches Request::Finish(Ok(results)) && results@.len() <= search.top_k && !less_than(
            results@[a].score,
            results@[b].score,
        ),
{
    let found = found_of(paired(search.candidates@, probes));
    lemma_reranked_len(found, search.top_k as nat);
    lemma_reranked_descending(found, search.top_k as nat, a, b);
}

/// When one row of the bit index carries the query's own bits, and no other
/// comparable row is at distance zero, stage 1 asks about that row's
/// document before any other.
pub proof fn lemma_own_row_is_asked_first(
    search: Search,
    rows: Seq<BitRow>,
    after: Search,
    request: Request,
    own: int,
)
    requires
        search.scanned(rows, after, request),
        search.stages.stage1_k > 0,
        forall|i: int| !bad_key(rows, i),
        0 <= own < rows.len(),
        rows[own].bits@ == search.query_bits@,
        forall|i: int|
            0 <= i < rows.len() && i != own && rows[i].bits@.len() == search.query_bits@.len()
                ==> hamming(search.query_bits@, #[trigger] rows[i].bits@) > 0,
    ensures
        after.stage is Refining,
        request matches Request::MeasureShort { candidates, .. } && candidates@.len() > 0
            && uuid_bytes(candidates@[0]) == rows[own].key@,
{
    lemma_only_match_is_nearest(rows, search.query_bits@, search.stages.stage1_k as nat, own);
}

/// When one candidate of stage 2 is found nearer to the query than every
/// other candidate found, stage 2 asks about it before any other.
pub proof fn lemma_nearest_is_asked_first(
    search: Search,
    probes: Seq<Probe<u32>>,
    after: Search,
    request: Request,
    nearest: int,
)
    requires
        probes.len() == search.candidates@.len(),
        search.refined(probes, after, request),
        search.stages.stage2_k > 0,
        forall|i: int| 0 <= i < probes.len() ==> !(probes[i] is Unmeasurable),
        0 <= nearest < probes.len(),
        probes[nearest] is Found,
        forall|i: int|
            0 <= i < probes.len() && i != nearest && (#[trigger] probes[i]) is Found
                ==> ascending_rank(probes[nearest]->Found_0) < ascending_rank(probes[i]->Found_0),
    ensures
        after.stage is Reranking,
        request matches Request::MeasureFull { candidates } && candidates@.len() > 0
            && candidates@[0] == search.candidates@[nearest],
{
    let measured = paired(search.candidates@, probes);
    let marks = found_marks(measured);
    let places = kept(marks, measured.len());
    let found = found_of(measured);
    lemma_kept(marks, measured.len());
    assert(marks[nearest]);
    assert(places.contains(nearest));
    let at = choose|at: int| 0 <= at < places.len() && places[at] == nearest;
    assert forall|j: int| 0 <= j < found.len() && j != at implies ascending_rank(found[at].1)
        < ascending_rank(#[trigger] found[j].1) by {
        let i = places[j];
        if j < at {
            assert(places[j] < places[at]);
        } else {
            assert(places[at] < places[j]);
        }
        assert(marks[i]);
        assert(probes[i] is Found);
    }
    lemma_nearest_first(found, search.stages.stage2_k as nat, at);
    assert(!exists|i: int| unmeasurable_at(measured, i)) by {
        assert forall|i: int| !unmeasurable_at(measured, i) by {
            if 0 <= i < measured.len() {
                assert(!(probes[i] is Unmeasurable));
            }
        }
    }
}

/// When one candidate of stage 3 is found more similar to the query than
/// every other candidate found, it is the first result of the search.
pub proof fn lemma_best_is_first_result(
    search: Search,
    probes: Seq<Probe<(u32, Value)>>,
    after: Search,
    request: Request,
    best: int,
)
    requires
        probes.len() == search.candidates@.len(),
        search.reranked(probes, after, request),
        search.top_k > 0,
        forall|i: int| 0 <= i < probes.len() ==> !(probes[i] is Unmeasurable),
        0 <= best < probes.len(),
        probes[best] is Found,
        forall|i: int|
            0 <= i < probes.len() && i != best && (#[trigger] probes[i]) is Found
                ==> descending_rank(probes[best]->Found_0.0) < descending_rank(
                probes[i]->Found_0.0,
            ),
    ensures
        request matches Request::Finish(Ok(results)) && results@.len() > 0 && results@[0].id
            == search.candidates@[best] && results@[0].score == probes[best]->Found_0.0
            && results@[0].metadata == probes[best]->Found_0.1,
{
    let scored = paired(search.candidates@, probes);
    let marks = found_marks(scored);
    let places = kept(marks, scored.len());
    let found = found_of(scored);
    lemma_kept(marks, scored.len());
    assert(marks[best]);
    assert(places.contains(best));
    let at = choose|at: int| 0 <= at < places.len() && places[at] == best;
    assert forall|j: int| 0 <= j < found.len() && j != at implies descending_rank(found[at].1.0)
        < descending_rank(#[trigger] found[j].1.0) by {
        let i = places[j];
        if j < at {
            assert(places[j] < places[at]);
        } else {
            assert(places[at] < places[j]);
        }
        assert(marks[i]);
        assert(probes[i] is Found);
    }
    lemma_best_score_first(found, search.top_k as nat, at);
    assert(!exists|i: int| unmeasurable_at(scored, i)) by {
        assert forall|i: int| !unmeasurable_at(scored, i) by {
            if 0 <= i < scored.len() {
                assert(!(probes[i] is Unmeasurable));
            }
        }
    }
}

} // verus!
