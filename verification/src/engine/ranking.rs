//! Rank selection: the foremost few of a list of keyed items, best first.
//!
//! Items are ranked by an integer key, smaller keys first; among equal keys
//! the item that came earlier in the list ranks first. A ranking is a list of
//! indices into the list that is ranked.

use vstd::prelude::*;

verus! {

/// Whether item `i` ranks before item `j`: by smaller key, or by earlier
/// place among equal keys.
pub open spec fn precedes(keys: Seq<int>, i: int, j: int) -> bool {
    keys[i] < keys[j] || (keys[i] == keys[j] && i < j)
}

/// How many items a ranking of `count` items holds under a limit.
pub open spec fn ranked_len(limit: nat, count: nat) -> nat {
    if limit < count {
        limit
    } else {
        count
    }
}

/// Whether `picks` is the ranking of `keys` under `limit`: as many valid
/// indices as the limit allows, each ranking before the next, and each
/// ranking before every index left out.
pub open spec fn is_ranking(keys: Seq<int>, limit: nat, picks: Seq<int>) -> bool {
    &&& picks.len() == ranked_len(limit, keys.len())
    &&& forall|j: int| 0 <= j < picks.len() ==> 0 <= #[trigger] picks[j] < keys.len()
    &&& forall|a: int, b: int|
        0 <= a < b < picks.len() ==> precedes(keys, #[trigger] picks[a], #[trigger] picks[b])
    &&& forall|i: int, j: int|
        0 <= i < keys.len() && 0 <= j < picks.len() && !#[trigger] picks.contains(i) ==> precedes(
            keys,
            #[trigger] picks[j],
            i,
        )
}

/// Where a new item with key `key` goes into a ranking: behind the last
/// pick whose key is not larger.
pub open spec fn insertion_point(keys: Seq<int>, picks: Seq<int>, key: int) -> int
    decreases picks.len(),
{
    if picks.len() == 0 {
        0
    } else if keys[picks.last()] <= key {
        picks.len() as int
    } else {
        insertion_point(keys, picks.drop_last(), key)
    }
}

/// The ranking of `keys` from the ranking of all its items but the last:
/// the last item is put in its place, and the ranking cut to the limit.
pub open spec fn with_last(keys: Seq<int>, limit: nat, prev: Seq<int>) -> Seq<int> {
    let last = keys.len() - 1;
    let grown = prev.insert(insertion_point(keys, prev, keys[last]), last);
    if grown.len() > limit {
        grown.take(limit as int)
    } else {
        grown
    }
}

/// The indices of the `limit` foremost items of `keys`, best first.
pub open spec fn ranking(keys: Seq<int>, limit: nat) -> Seq<int>
    decreases keys.len(),
{
    if keys.len() == 0 {
        Seq::empty()
    } else {
        with_last(keys, limit, ranking(keys.drop_last(), limit))
    }
}

/// The items that a list of indices picks, in that order.
pub open spec fn select<T>(items: Seq<T>, picks: Seq<int>) -> Seq<T> {
    Seq::new(picks.len(), |j: int| items[picks[j]])
}

/// When the limit does not bind, a ranking leaves no index out.
spec fn complete(keys: Seq<int>, limit: nat, picks: Seq<int>) -> bool {
    keys.len() <= limit ==> forall|i: int| 0 <= i < keys.len() ==> #[trigger] picks.contains(i)
}

/// Indices that are valid in `keys`, each ranking before the next.
spec fn ordered(keys: Seq<int>, picks: Seq<int>) -> bool {
    &&& forall|j: int| 0 <= j < picks.len() ==> 0 <= #[trigger] picks[j] < keys.len()
    &&& forall|a: int, b: int|
        0 <= a < b < picks.len() ==> precedes(keys, #[trigger] picks[a], #[trigger] picks[b])
}

/// The insertion point splits an ordered list of picks into those with a key
/// up to `key` and those with a larger key.
proof fn lemma_insertion_point_splits(keys: Seq<int>, picks: Seq<int>, key: int)
    requires
        ordered(keys, picks),
    ensures
        0 <= insertion_point(keys, picks, key) <= picks.len(),
        forall|a: int|
            0 <= a < insertion_point(keys, picks, key) ==> keys[#[trigger] picks[a]] <= key,
        forall|a: int|
            insertion_point(keys, picks, key) <= a < picks.len() ==> keys[#[trigger] picks[a]]
                > key,
    decreases picks.len(),
{
    if picks.len() > 0 {
        let last = picks.len() - 1;
        if keys[picks.last()] <= key {
            assert forall|a: int| 0 <= a < picks.len() implies keys[#[trigger] picks[a]]
                <= key by {
                if a < last {
                    assert(precedes(keys, picks[a], picks[last]));
                }
            }
        } else {
            let front = picks.drop_last();
            assert forall|a: int, b: int| 0 <= a < b < front.len() implies precedes(
                keys,
                #[trigger] front[a],
                #[trigger] front[b],
            ) by {
                assert(front[a] == picks[a] && front[b] == picks[b]);
            }
            assert forall|j: int| 0 <= j < front.len() implies 0 <= #[trigger] front[j]
                < keys.len() by {
                assert(front[j] == picks[j]);
            }
            lemma_insertion_point_splits(keys, front, key);
            let p = insertion_point(keys, front, key);
            assert forall|a: int| 0 <= a < p implies keys[#[trigger] picks[a]] <= key by {
                assert(front[a] == picks[a]);
            }
            assert forall|a: int| p <= a < picks.len() implies keys[#[trigger] picks[a]]
                > key by {
                if a < last {
                    assert(front[a] == picks[a]);
                }
            }
        }
    }
}

/// A place that splits an ordered list of picks as the insertion point does
/// is the insertion point.
pub proof fn lemma_insertion_point_found(keys: Seq<int>, picks: Seq<int>, key: int, place: int)
    requires
        0 <= place <= picks.len(),
        place > 0 ==> keys[picks[place - 1]] <= key,
        forall|a: int| place <= a < picks.len() ==> keys[#[trigger] picks[a]] > key,
    ensures
        insertion_point(keys, picks, key) == place,
    decreases picks.len(),
{
    if picks.len() > 0 {
        if place == picks.len() {
        } else {
            let front = picks.drop_last();
            assert(keys[picks[picks.len() - 1]] > key);
            assert forall|a: int| place <= a < front.len() implies keys[#[trigger] front[a]]
                > key by {
                assert(front[a] == picks[a]);
            }
            if place > 0 {
                assert(front[place - 1] == picks[place - 1]);
            }
            lemma_insertion_point_found(keys, front, key, place);
        }
    }
}

/// Putting the last item in its place turns a ranking of the items before
/// it into a ranking of all items.
proof fn lemma_with_last(keys: Seq<int>, limit: nat, prev: Seq<int>)
    requires
        keys.len() > 0,
        is_ranking(keys.drop_last(), limit, prev),
        complete(keys.drop_last(), limit, prev),
    ensures
        is_ranking(keys, limit, with_last(keys, limit, prev)),
        complete(keys, limit, with_last(keys, limit, prev)),
{
    let last = keys.len() - 1;
    let before = keys.drop_last();
    let key = keys[last];
    assert forall|i: int| 0 <= i < last implies before[i] == keys[i] by {}
    assert(ordered(keys, prev)) by {
        assert forall|a: int, b: int| 0 <= a < b < prev.len() implies precedes(
            keys,
            #[trigger] prev[a],
            #[trigger] prev[b],
        ) by {
            assert(precedes(before, prev[a], prev[b]));
        }
    }
    lemma_insertion_point_splits(keys, prev, key);
    let p = insertion_point(keys, prev, key);
    let grown = prev.insert(p, last);
    let result = with_last(keys, limit, prev);
    assert(grown.len() == prev.len() + 1);
    assert forall|a: int| 0 <= a < grown.len() implies #[trigger] grown[a] == (if a < p {
        prev[a]
    } else if a == p {
        last
    } else {
        prev[a - 1]
    }) by {}
    assert(ordered(keys, grown)) by {
        assert forall|a: int, b: int| 0 <= a < b < grown.len() implies precedes(
            keys,
            #[trigger] grown[a],
            #[trigger] grown[b],
        ) by {
            if b < p {
                assert(precedes(keys, prev[a], prev[b]));
            } else if b == p {
                assert(keys[prev[a]] <= key);
            } else if a < p {
                assert(precedes(keys, prev[a], prev[b - 1]));
            } else if a == p {
                assert(keys[prev[b - 1]] > key);
            } else {
                assert(precedes(keys, prev[a - 1], prev[b - 1]));
            }
        }
    }
    // every earlier pick, and the last item, is in the grown list
    assert forall|i: int| prev.contains(i) implies grown.contains(i) by {
        let a = choose|a: int| 0 <= a < prev.len() && prev[a] == i;
        if a < p {
            assert(grown[a] == i);
        } else {
            assert(grown[a + 1] == i);
        }
    }
    assert(grown[p] == last);
    assert(grown.contains(last));
    if grown.len() > limit {
        assert(prev.len() == limit);
        assert(result == grown.take(limit as int));
        assert forall|j: int| 0 <= j < result.len() implies result[j] == grown[j] by {}
        assert forall|i: int, j: int|
            0 <= i < keys.len() && 0 <= j < result.len() && !#[trigger] result.contains(
                i,
            ) implies precedes(keys, #[trigger] result[j], i) by {
            if grown.contains(i) {
                let at = choose|at: int| 0 <= at < grown.len() && grown[at] == i;
                if at < limit {
                    assert(result[at] == i);
                    assert(false);
                }
                assert(precedes(keys, grown[j], grown[at]));
            } else {
                assert(!prev.contains(i));
                assert(i != last);
                if j < p {
                    assert(precedes(before, prev[j], i));
                } else if j == p {
                    assert(precedes(before, prev[p], i));
                    assert(keys[prev[p]] > key);
                } else {
                    assert(precedes(before, prev[j - 1], i));
                }
            }
        }
    } else {
        assert(result == grown);
        assert(prev.len() == last);
        assert forall|i: int| 0 <= i < keys.len() implies #[trigger] result.contains(i) by {
            if i < last {
                assert(prev.contains(i));
            }
        }
    }
}

/// The ranking function yields the ranking: as many picks as the limit
/// allows, in rank order, ranking before everything left out.
pub proof fn lemma_ranking_is_ranking(keys: Seq<int>, limit: nat)
    ensures
        is_ranking(keys, limit, ranking(keys, limit)),
    decreases keys.len(),
{
    lemma_ranking_complete(keys, limit);
}

proof fn lemma_ranking_complete(keys: Seq<int>, limit: nat)
    ensures
        is_ranking(keys, limit, ranking(keys, limit)),
        complete(keys, limit, ranking(keys, limit)),
    decreases keys.len(),
{
    if keys.len() > 0 {
        lemma_ranking_complete(keys.drop_last(), limit);
        lemma_with_last(keys, limit, ranking(keys.drop_last(), limit));
    }
}

/// Two rankings of the same keys under the same limit agree up to any place.
proof fn lemma_rankings_agree(keys: Seq<int>, limit: nat, one: Seq<int>, other: Seq<int>, upto: nat)
    requires
        is_ranking(keys, limit, one),
        is_ranking(keys, limit, other),
        upto <= one.len(),
    ensures
        forall|j: int| 0 <= j < upto ==> one[j] == other[j],
    decreases upto,
{
    if upto > 0 {
        lemma_rankings_agree(keys, limit, one, other, (upto - 1) as nat);
        let at = upto - 1;
        let x = one[at];
        let y = other[at];
        if x != y {
            lemma_ranks_before(keys, limit, other, one, at);
            lemma_ranks_before(keys, limit, one, other, at);
            assert(precedes(keys, x, y) && precedes(keys, y, x));
        }
    }
}

/// If two rankings agree before place `at`, the pick of `one` at that place
/// ranks before the pick of `other` there, unless they are the same.
proof fn lemma_ranks_before(keys: Seq<int>, limit: nat, one: Seq<int>, other: Seq<int>, at: int)
    requires
        is_ranking(keys, limit, one),
        is_ranking(keys, limit, other),
        0 <= at < one.len(),
        forall|j: int| 0 <= j < at ==> one[j] == other[j],
        one[at] != other[at],
    ensures
        precedes(keys, one[at], other[at]),
{
    let y = other[at];
    if one.contains(y) {
        let m = choose|m: int| 0 <= m < one.len() && one[m] == y;
        if m < at {
            assert(other[m] == y);
            assert(precedes(keys, other[m], other[at]));
        } else {
            assert(precedes(keys, one[at], one[m]));
        }
    } else {
        assert(precedes(keys, one[at], y));
    }
}

/// The ranking is unique: whatever meets the description of a ranking is the
/// ranking.
pub proof fn lemma_ranking_unique(keys: Seq<int>, limit: nat, picks: Seq<int>)
    requires
        is_ranking(keys, limit, picks),
    ensures
        picks == ranking(keys, limit),
{
    lemma_ranking_is_ranking(keys, limit);
    lemma_rankings_agree(keys, limit, picks, ranking(keys, limit), picks.len());
    assert(picks =~= ranking(keys, limit));
}

/// With no items there is nothing to rank, and with a limit of zero nothing
/// is kept.
pub proof fn lemma_ranking_empty(keys: Seq<int>, limit: nat)
    requires
        keys.len() == 0 || limit == 0,
    ensures
        ranking(keys, limit).len() == 0,
{
    lemma_ranking_is_ranking(keys, limit);
}

/// A ranking keeps something whenever there is something to keep.
pub proof fn lemma_ranking_nonempty(keys: Seq<int>, limit: nat)
    requires
        keys.len() > 0,
        limit > 0,
    ensures
        ranking(keys, limit).len() > 0,
{
    lemma_ranking_is_ranking(keys, limit);
}

/// The keys of the ranked items never decrease along the ranking.
pub proof fn lemma_ranking_keys_ascend(keys: Seq<int>, limit: nat, a: int, b: int)
    requires
        0 <= a <= b < ranking(keys, limit).len(),
    ensures
        keys[ranking(keys, limit)[a]] <= keys[ranking(keys, limit)[b]],
{
    lemma_ranking_is_ranking(keys, limit);
    let picks = ranking(keys, limit);
    if a < b {
        assert(precedes(keys, picks[a], picks[b]));
    }
}

/// An item whose key is smaller than every other key is ranked first.
pub proof fn lemma_least_ranks_first(keys: Seq<int>, limit: nat, least: int)
    requires
        limit > 0,
        0 <= least < keys.len(),
        forall|i: int| 0 <= i < keys.len() && i != least ==> keys[least] < #[trigger] keys[i],
    ensures
        ranking(keys, limit).len() > 0,
        ranking(keys, limit)[0] == least,
{
    lemma_ranking_is_ranking(keys, limit);
    let picks = ranking(keys, limit);
    let first = picks[0];
    if first != least {
        assert(keys[least] < keys[first]);
        if picks.contains(least) {
            let m = choose|m: int| 0 <= m < picks.len() && picks[m] == least;
            assert(precedes(keys, picks[0], picks[m]));
        } else {
            assert(precedes(keys, picks[0], least));
        }
    }
}

/// The places among the first `n` that are marked to be kept, in ascending
/// order.
pub open spec fn kept(keep: Seq<bool>, n: nat) -> Seq<int>
    decreases n,
{
    if n == 0 {
        Seq::empty()
    } else if keep[n - 1] {
        kept(keep, (n - 1) as nat).push(n - 1)
    } else {
        kept(keep, (n - 1) as nat)
    }
}

/// The kept places are valid and marked, each smaller than the next, and
/// every marked place is among them.
pub proof fn lemma_kept(keep: Seq<bool>, n: nat)
    requires
        n <= keep.len(),
    ensures
        kept(keep, n).len() <= n,
        forall|j: int|
            0 <= j < kept(keep, n).len() ==> 0 <= #[trigger] kept(keep, n)[j] < n && keep[kept(
                keep,
                n,
            )[j]],
        forall|a: int, b: int|
            0 <= a < b < kept(keep, n).len() ==> #[trigger] kept(keep, n)[a] < #[trigger] kept(
                keep,
                n,
            )[b],
        forall|i: int| 0 <= i < n && keep[i] ==> #[trigger] kept(keep, n).contains(i),
    decreases n,
{
    if n > 0 {
        let before = kept(keep, (n - 1) as nat);
        let now = kept(keep, n);
        lemma_kept(keep, (n - 1) as nat);
        assert forall|i: int| 0 <= i < n && keep[i] implies #[trigger] now.contains(i) by {
            if i < n - 1 {
                assert(before.contains(i));
                let j = choose|j: int| 0 <= j < before.len() && before[j] == i;
                assert(now[j] == i);
            } else {
                assert(now[now.len() - 1] == i);
            }
        }
        assert forall|a: int, b: int| 0 <= a < b < now.len() implies #[trigger] now[a]
            < #[trigger] now[b] by {
            if b < before.len() {
                assert(before[a] < before[b]);
            } else {
                assert(0 <= before[a] < n - 1);
            }
        }
    }
}

/// With nothing marked, nothing is kept.
pub proof fn lemma_kept_none(keep: Seq<bool>, n: nat)
    requires
        n <= keep.len(),
        forall|i: int| 0 <= i < n ==> !keep[i],
    ensures
        kept(keep, n).len() == 0,
    decreases n,
{
    if n > 0 {
        lemma_kept_none(keep, (n - 1) as nat);
    }
}

/// The keys of a list of keyed items.
pub open spec fn keys_of<T>(items: Seq<(u64, T)>) -> Seq<int> {
    Seq::new(items.len(), |i: int| items[i].0 as int)
}

/// The `limit` foremost items of a keyed list, best first.
pub open spec fn foremost_of<T>(items: Seq<(u64, T)>, limit: nat) -> Seq<(u64, T)> {
    select(items, ranking(keys_of(items), limit))
}

/// Picks the `limit` items with the smallest keys and returns them in
/// ascending order of key; items with equal keys keep the order in which
/// they came, and the earlier one is kept when the limit cuts between them.
pub fn foremost<T>(items: Vec<(u64, T)>, limit: usize) -> (ranked: Vec<(u64, T)>)
    ensures
        ranked@ == foremost_of(items@, limit as nat),
{
    let ghost all = items@;
    let ghost keys = keys_of(all);
    let mut ranked: Vec<(u64, T)> = Vec::new();
    assert(keys.take(0) =~= Seq::<int>::empty());
    assert(ranked@ =~= select(all, ranking(keys.take(0), limit as nat)));
    for item in it: items
        invariant
            it.seq() == all,
            keys == keys_of(all),
            ranked@ == select(all, ranking(keys.take(it.index()), limit as nat)),
    {
        let ghost m = it.index();
        let ghost upto = keys.take(m + 1);
        let ghost prev = ranking(keys.take(m), limit as nat);
        let ghost before = ranked@;
        let key = item.0;
        proof {
            assert(upto.drop_last() =~= keys.take(m));
            lemma_ranking_is_ranking(keys.take(m), limit as nat);
            assert(upto[m] == key);
            assert forall|a: int| 0 <= a < prev.len() implies before[a].0 == upto[#[trigger] prev[a]] by {
                assert(before[a] == all[prev[a]]);
            }
        }
        let mut place: usize = ranked.len();
        while place > 0 && ranked[place - 1].0 > key
            invariant
                place <= ranked@.len(),
                ranked@ == before,
                forall|a: int| place <= a < ranked@.len() ==> (#[trigger] ranked@[a]).0 > key,
            decreases place,
        {
            place -= 1;
        }
        proof {
            assert forall|a: int| place <= a < prev.len() implies upto[#[trigger] prev[a]]
                > key by {
                assert(before[a].0 > key);
            }
            lemma_insertion_point_found(upto, prev, key as int, place as int);
        }
        if place < limit {
            ranked.insert(place, item);
            if ranked.len() > limit {
                ranked.truncate(limit);
            }
        }
        proof {
            let grown = prev.insert(place as int, m);
            assert(select(all, grown) =~= before.insert(place as int, all[m]));
            assert(ranked@ =~= select(all, with_last(upto, limit as nat, prev)));
        }
    }
    assert(keys.take(all.len() as int) =~= keys);
    ranked
}

/// The items of a keyed list without their keys.
pub open spec fn unkeyed<T>(items: Seq<(u64, T)>) -> Seq<T> {
    Seq::new(items.len(), |j: int| items[j].1)
}

/// Takes the keys off a keyed list.
pub fn strip_keys<T>(keyed: Vec<(u64, T)>) -> (items: Vec<T>)
    ensures
        items@ == unkeyed(keyed@),
{
    let ghost all = keyed@;
    let mut items: Vec<T> = Vec::new();
    for pair in it: keyed
        invariant
            it.seq() == all,
            items@.len() == it.index(),
            forall|j: int| 0 <= j < items@.len() ==> #[trigger] items@[j] == all[j].1,
    {
        items.push(pair.1);
    }
    assert(items@ =~= unkeyed(all));
    items
}

} // verus!
