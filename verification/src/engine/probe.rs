//! What the store and the cosine kernel report of a candidate, and the
//! gathering of those reports.

use uuid::Uuid;
use vstd::prelude::*;

use crate::engine::ranking::kept;
use crate::engine::ranking::lemma_kept;
use crate::engine::ranking::lemma_kept_none;

verus! {

/// The outcome of looking a candidate up and measuring it against the query.
#[derive(Debug, Clone)]
pub enum Probe<T> {
    /// The store holds no such document, or no longer holds it.
    Missing,
    /// The document's vector could not be measured against the query: the
    /// two differ in length.
    Unmeasurable,
    /// The document was found and measured.
    Found(T),
}

/// The failure to measure a candidate: its place among the candidates, and
/// its identifier.
#[derive(Debug, Clone)]
pub struct Unmeasurable {
    pub place: usize,
    pub id: Uuid,
}

/// Whether candidate `i` exists and could not be measured.
pub open spec fn unmeasurable_at<T>(probes: Seq<(Uuid, Probe<T>)>, i: int) -> bool {
    0 <= i < probes.len() && probes[i].1 is Unmeasurable
}

/// Whether `failure` names the first candidate that could not be measured.
pub open spec fn first_unmeasurable<T>(probes: Seq<(Uuid, Probe<T>)>, failure: Unmeasurable) -> bool {
    &&& unmeasurable_at(probes, failure.place as int)
    &&& failure.id == probes[failure.place as int].0
    &&& forall|i: int| 0 <= i < failure.place ==> !unmeasurable_at(probes, i)
}

/// For each candidate, whether it was found.
pub open spec fn found_marks<T>(probes: Seq<(Uuid, Probe<T>)>) -> Seq<bool> {
    Seq::new(probes.len(), |i: int| probes[i].1 is Found)
}

/// The candidates that were found, each with what was measured of it, in
/// the order of the candidates.
pub open spec fn found_of<T>(probes: Seq<(Uuid, Probe<T>)>) -> Seq<(Uuid, T)> {
    let places = kept(found_marks(probes), probes.len());
    Seq::new(places.len(), |j: int| (probes[places[j]].0, probes[places[j]].1->Found_0))
}

/// Gathers the candidates that were found, in order, passing over those that
/// are missing. Fails at the first candidate that could not be measured.
pub fn gather<T>(probes: Vec<(Uuid, Probe<T>)>) -> (gathered: Result<
    Vec<(Uuid, T)>,
    Unmeasurable,
>)
    ensures
        gathered is Err <==> exists|i: int| unmeasurable_at(probes@, i),
        gathered matches Err(failure) ==> first_unmeasurable(probes@, failure),
        gathered matches Ok(found) ==> found@ == found_of(probes@),
{
    let ghost all = probes@;
    let count = probes.len();
    let mut found: Vec<(Uuid, T)> = Vec::new();
    let mut place: usize = 0;
    for probe in it: probes
        invariant
            it.seq() == all,
            all.len() == count,
            place == it.index(),
            forall|i: int| 0 <= i < place ==> !unmeasurable_at(all, i),
            found@.len() == kept(found_marks(all), place as nat).len(),
            forall|j: int|
                0 <= j < found@.len() ==> #[trigger] found@[j] == (
                    all[kept(found_marks(all), place as nat)[j]].0,
                    all[kept(found_marks(all), place as nat)[j]].1->Found_0,
                ),
    {
        proof {
            lemma_kept(found_marks(all), place as nat);
        }
        let (id, outcome) = probe;
        match outcome {
            Probe::Missing => {},
            Probe::Unmeasurable => {
                assert(unmeasurable_at(all, place as int));
                return Err(Unmeasurable { place, id });
            },
            Probe::Found(measured) => {
                found.push((id, measured));
            },
        }
        place += 1;
    }
    proof {
        assert(found@ =~= found_of(all));
        assert(!exists|i: int| unmeasurable_at(all, i));
    }
    Ok(found)
}

/// When no candidate was found, nothing is gathered.
pub proof fn lemma_found_of_none<T>(probes: Seq<(Uuid, Probe<T>)>)
    requires
        forall|i: int| 0 <= i < probes.len() ==> !(probes[i].1 is Found),
    ensures
        found_of(probes).len() == 0,
{
    lemma_kept_none(found_marks(probes), probes.len());
}

} // verus!
