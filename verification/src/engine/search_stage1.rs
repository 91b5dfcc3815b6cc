//! Stage 1: the Hamming scan over the bit index.

use uuid::Uuid;
use vstd::prelude::*;

use crate::engine::hamming::hamming;
use crate::engine::hamming::hamming_simd;
use crate::engine::hamming::max_len;
use crate::engine::ident::uuid_bytes;
use crate::engine::ident::uuid_from_slice;
use crate::engine::ident::ID_LEN;
use crate::engine::hamming::lemma_hamming_self;
use crate::engine::hamming::lemma_prefix_distance_bound;
use crate::engine::ranking::foremost;
use crate::engine::ranking::kept;
use crate::engine::ranking::keys_of;
use crate::engine::ranking::lemma_kept;
use crate::engine::ranking::lemma_least_ranks_first;
use crate::engine::ranking::lemma_ranking_is_ranking;
use crate::engine::ranking::lemma_ranking_keys_ascend;
use crate::engine::ranking::ranking;
use crate::engine::ranking::select;

verus! {

/// A row of the bit index as it is stored: the identifier's bytes as the
/// key, the packed sign bits as the value.
#[derive(Debug, Clone)]
pub struct BitRow {
    pub key: Vec<u8>,
    pub bits: Vec<u8>,
}

/// A candidate of the scan: a document and its Hamming distance from the
/// query.
#[derive(Debug, Clone)]
pub struct SearchResult {
    pub id: Uuid,
    pub distance: u64,
}

/// Why a scan failed.
#[derive(Debug, Clone, Copy, PartialEq, Eq)]
pub enum ScanError {
    /// The key of row `row` is `len` bytes long, which is no identifier.
    InvalidKey { row: usize, len: usize },
}

/// Whether row `i` exists and has a key that is no identifier.
pub open spec fn bad_key(rows: Seq<BitRow>, i: int) -> bool {
    0 <= i < rows.len() && rows[i].key@.len() != ID_LEN
}

/// For each row, whether it can be compared with the query: whether its bit
/// vector is as long as the query's.
pub open spec fn comparable(rows: Seq<BitRow>, query: Seq<u8>) -> Seq<bool> {
    Seq::new(rows.len(), |i: int| rows[i].bits@.len() == query.len())
}

/// The distances of the given rows from the query.
pub open spec fn row_distances(rows: Seq<BitRow>, query: Seq<u8>, places: Seq<int>) -> Seq<int> {
    Seq::new(places.len(), |j: int| hamming(query, rows[places[j]].bits@) as int)
}

/// The places of the `k` comparable rows nearest to the query, nearest
/// first, the earlier row first among rows at the same distance.
pub open spec fn nearest_rows(rows: Seq<BitRow>, query: Seq<u8>, k: nat) -> Seq<int> {
    let places = kept(comparable(rows, query), rows.len());
    select(places, ranking(row_distances(rows, query, places), k))
}

/// Scans the rows of the bit index for the `k` bit vectors nearest to the
/// query in Hamming distance. Rows whose bit vector differs in length from
/// the query are passed over. The result is in ascending order of distance;
/// rows at the same distance keep their order in the index. A row whose key
/// is not sixteen bytes long fails the scan.
pub fn hamming_scan(rows: &Vec<BitRow>, query_bits: &[u8], k: usize) -> (scanned: Result<
    Vec<SearchResult>,
    ScanError,
>)
    requires
        query_bits@.len() <= max_len(),
    ensures
        scanned is Err <==> exists|i: int| bad_key(rows@, i),
        scanned matches Err(ScanError::InvalidKey { row, len }) ==> {
            &&& bad_key(rows@, row as int)
            &&& len == rows@[row as int].key@.len()
            &&& forall|i: int| 0 <= i < row ==> !bad_key(rows@, i)
        },
        scanned matches Ok(results) ==> {
            let nearest = nearest_rows(rows@, query_bits@, k as nat);
            &&& results@.len() == nearest.len()
            &&& forall|j: int|
                0 <= j < results@.len() ==> {
                    &&& uuid_bytes((#[trigger] results@[j]).id) == rows@[nearest[j]].key@
                    &&& results@[j].distance == hamming(query_bits@, rows@[nearest[j]].bits@)
                }
        },
{
    let mut hits: Vec<(u64, Uuid)> = Vec::new();
    let ghost mut places: Seq<int> = Seq::empty();
    let mut i: usize = 0;
    while i < rows.len()
        invariant
            i <= rows@.len(),
            query_bits@.len() <= max_len(),
            forall|b: int| 0 <= b < i ==> !bad_key(rows@, b),
            places == kept(comparable(rows@, query_bits@), i as nat),
            hits@.len() == places.len(),
            forall|j: int|
                0 <= j < hits@.len() ==> {
                    &&& uuid_bytes((#[trigger] hits@[j]).1) == rows@[places[j]].key@
                    &&& hits@[j].0 == hamming(query_bits@, rows@[places[j]].bits@)
                },
        decreases rows@.len() - i,
    {
        let row = &rows[i];
        let id = match uuid_from_slice(row.key.as_slice()) {
            Ok(id) => id,
            Err(_) => {
                assert(bad_key(rows@, i as int));
                return Err(ScanError::InvalidKey { row: i, len: row.key.len() });
            },
        };
        match hamming_simd(query_bits, row.bits.as_slice()) {
            Some(distance) => {
                proof {
                    lemma_prefix_distance_bound(query_bits@, row.bits@, query_bits@.len());
                }
                hits.push((distance, id));
                proof {
                    places = places.push(i as int);
                }
            },
            None => {},
        }
        i += 1;
    }
    let ghost gathered = hits@;
    let ranked = foremost(hits, k);
    let ghost picks = ranking(keys_of(gathered), k as nat);
    proof {
        lemma_ranking_is_ranking(keys_of(gathered), k as nat);
        assert(keys_of(gathered) =~= row_distances(rows@, query_bits@, places));
    }
    let mut results: Vec<SearchResult> = Vec::new();
    let mut j: usize = 0;
    while j < ranked.len()
        invariant
            j <= ranked@.len(),
            results@.len() == j,
            forall|q: int|
                0 <= q < j ==> (#[trigger] results@[q]).id == ranked@[q].1 && results@[q].distance
                    == ranked@[q].0,
        decreases ranked@.len() - j,
    {
        results.push(SearchResult { id: ranked[j].1, distance: ranked[j].0 });
        j += 1;
    }
    proof {
        let nearest = nearest_rows(rows@, query_bits@, k as nat);
        assert(nearest =~= select(places, picks));
        assert forall|q: int| 0 <= q < results@.len() implies {
            &&& uuid_bytes((#[trigger] results@[q]).id) == rows@[nearest[q]].key@
            &&& results@[q].distance == hamming(query_bits@, rows@[nearest[q]].bits@)
        } by {
            assert(ranked@[q] == gathered[picks[q]]);
            assert(nearest[q] == places[picks[q]]);
        }
        assert(!exists|b: int| bad_key(rows@, b));
    }
    Ok(results)
}

/// A row whose bit vector is the query's own, and the only comparable row
/// at distance zero, is the nearest row.
pub proof fn lemma_only_match_is_nearest(rows: Seq<BitRow>, query: Seq<u8>, k: nat, own: int)
    requires
        k > 0,
        0 <= own < rows.len(),
        rows[own].bits@ == query,
        forall|i: int|
            0 <= i < rows.len() && i != own && rows[i].bits@.len() == query.len() ==> hamming(
                query,
                #[trigger] rows[i].bits@,
            ) > 0,
    ensures
        nearest_rows(rows, query, k).len() > 0,
        nearest_rows(rows, query, k)[0] == own,
{
    let marks = comparable(rows, query);
    let places = kept(marks, rows.len());
    let keys = row_distances(rows, query, places);
    lemma_kept(marks, rows.len());
    assert(marks[own]);
    assert(places.contains(own));
    let at = choose|at: int| 0 <= at < places.len() && places[at] == own;
    lemma_hamming_self(query);
    assert(keys[at] == 0);
    assert forall|j: int| 0 <= j < keys.len() && j != at implies keys[at] < #[trigger] keys[j] by {
        let i = places[j];
        if j < at {
            assert(places[j] < places[at]);
        } else {
            assert(places[at] < places[j]);
        }
        assert(marks[i]);
        assert(hamming(query, rows[i].bits@) > 0);
    }
    lemma_least_ranks_first(keys, k, at);
}

/// The scan keeps as many rows as are comparable, up to `k`, and along its
/// result distances never decrease.
pub proof fn lemma_nearest_rows_ascend(rows: Seq<BitRow>, query: Seq<u8>, k: nat, a: int, b: int)
    requires
        0 <= a <= b < nearest_rows(rows, query, k).len(),
    ensures
        nearest_rows(rows, query, k).len() <= k,
        nearest_rows(rows, query, k).len() <= rows.len(),
        0 <= nearest_rows(rows, query, k)[a] < rows.len(),
        0 <= nearest_rows(rows, query, k)[b] < rows.len(),
        hamming(query, rows[nearest_rows(rows, query, k)[a]].bits@) <= hamming(
            query,
            rows[nearest_rows(rows, query, k)[b]].bits@,
        ),
{
    let marks = comparable(rows, query);
    let places = kept(marks, rows.len());
    let keys = row_distances(rows, query, places);
    lemma_kept(marks, rows.len());
    lemma_ranking_is_ranking(keys, k);
    lemma_ranking_keys_ascend(keys, k, a, b);
    let picks = ranking(keys, k);
    assert(0 <= picks[a] < places.len() && 0 <= picks[b] < places.len());
}

} // verus!
