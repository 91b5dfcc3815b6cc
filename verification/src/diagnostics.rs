//! What the diagnostics tool works out before it prints: how many memories
//! of each standing there are, how a size is scaled, how long a memory has
//! left, and how much of a text is shown.

use vstd::prelude::*;
use vstd::string::StringExecFns;
use vstd::string::StringSliceAdditionalSpecFns;
use vstd::utf8::decode_utf8;
use vstd::utf8::encode_utf8;
use vstd::utf8::encode_utf8_decode_utf8;
use vstd::utf8::is_char_boundary;

use crate::storage::tier::MemoryTier;

verus! {

/// How a memory stands at a given time.
#[derive(Debug, Clone, Copy, PartialEq, Eq, Structural)]
pub enum Standing {
    /// Kept for good.
    Semantic,
    /// Temporary, and still alive.
    Episodic,
    /// Temporary, and past its expiry, though not yet cleaned away.
    Expired,
}

/// How many memories of each standing a store holds.
#[derive(Debug, Clone, Copy, PartialEq, Eq, Structural)]
pub struct MemoryStats {
    pub total: usize,
    pub semantic: usize,
    pub episodic: usize,
    pub expired: usize,
}

/// The standing at time `now` of a memory of the given tier and expiry. Only
/// an episodic memory can be expired.
pub open spec fn standing_of(tier: MemoryTier, expires_at: Option<u64>, now: u64) -> Standing {
    match tier {
        MemoryTier::Semantic => Standing::Semantic,
        MemoryTier::Episodic => match expires_at {
            Some(at) => if now >= at {
                Standing::Expired
            } else {
                Standing::Episodic
            },
            None => Standing::Episodic,
        },
    }
}

/// How many of the first `n` entries have the given standing at time `now`.
pub open spec fn count_standing(
    entries: Seq<(MemoryTier, Option<u64>)>,
    now: u64,
    which: Standing,
    n: nat,
) -> nat
    decreases n,
{
    if n == 0 {
        0
    } else {
        count_standing(entries, now, which, (n - 1) as nat) + (if standing_of(
            entries[n - 1].0,
            entries[n - 1].1,
            now,
        ) == which {
            1nat
        } else {
            0nat
        })
    }
}

/// The three counts add up to the number of entries counted.
pub proof fn lemma_counts_add_up(entries: Seq<(MemoryTier, Option<u64>)>, now: u64, n: nat)
    ensures
        count_standing(entries, now, Standing::Semantic, n) + count_standing(
            entries,
            now,
            Standing::Episodic,
            n,
        ) + count_standing(entries, now, Standing::Expired, n) == n,
    decreases n,
{
    if n > 0 {
        lemma_counts_add_up(entries, now, (n - 1) as nat);
    }
}

/// Decides the standing of a memory at time `now`.
pub fn standing(tier: MemoryTier, expires_at: Option<u64>, now: u64) -> (s: Standing)
    ensures
        s == standing_of(tier, expires_at, now),
{
    match tier {
        MemoryTier::Semantic => Standing::Semantic,
        MemoryTier::Episodic => match expires_at {
            Some(at) => if now >= at {
                Standing::Expired
            } else {
                Standing::Episodic
            },
            None => Standing::Episodic,
        },
    }
}

/// Counts the memories of each standing at time `now`, given the tier and
/// the expiry of each.
pub fn tally(entries: &Vec<(MemoryTier, Option<u64>)>, now: u64) -> (stats: MemoryStats)
    ensures
        stats.total == entries@.len(),
        stats.semantic == count_standing(entries@, now, Standing::Semantic, entries@.len()),
        stats.episodic == count_standing(entries@, now, Standing::Episodic, entries@.len()),
        stats.expired == count_standing(entries@, now, Standing::Expired, entries@.len()),
{
    let mut stats = MemoryStats { total: 0, semantic: 0, episodic: 0, expired: 0 };
    let mut i: usize = 0;
    while i < entries.len()
        invariant
            i <= entries@.len(),
            stats.total == i,
            stats.semantic == count_standing(entries@, now, Standing::Semantic, i as nat),
            stats.episodic == count_standing(entries@, now, Standing::Episodic, i as nat),
            stats.expired == count_standing(entries@, now, Standing::Expired, i as nat),
        decreases entries@.len() - i,
    {
        proof {
            lemma_counts_add_up(entries@, now, i as nat);
        }
        stats.total = stats.total + 1;
        match standing(entries[i].0, entries[i].1, now) {
            Standing::Semantic => {
                stats.semantic = stats.semantic + 1;
            },
            Standing::Episodic => {
                stats.episodic = stats.episodic + 1;
            },
            Standing::Expired => {
                stats.expired = stats.expired + 1;
            },
        }
        i += 1;
    }
    stats
}

/// The unit in which a size in bytes is shown.
#[derive(Debug, Clone, Copy, PartialEq, Eq, Structural)]
pub enum SizeUnit {
    Bytes,
    Kilobytes,
    Megabytes,
    Gigabytes,
}

/// The number of bytes in a unit.
pub open spec fn unit_bytes(unit: SizeUnit) -> u64 {
    match unit {
        SizeUnit::Bytes => 1,
        SizeUnit::Kilobytes => 1024,
        SizeUnit::Megabytes => 1_048_576,
        SizeUnit::Gigabytes => 1_073_741_824,
    }
}

/// The unit in which a size is shown: the largest that the size reaches.
pub open spec fn unit_of(bytes: u64) -> SizeUnit {
    if bytes >= 1_073_741_824 {
        SizeUnit::Gigabytes
    } else if bytes >= 1_048_576 {
        SizeUnit::Megabytes
    } else if bytes >= 1024 {
        SizeUnit::Kilobytes
    } else {
        SizeUnit::Bytes
    }
}

/// Picks the unit in which a size is shown, and says how many bytes it has.
pub fn size_unit(bytes: u64) -> (scaled: (SizeUnit, u64))
    ensures
        scaled.0 == unit_of(bytes),
        scaled.1 == unit_bytes(scaled.0),
        scaled.0 != SizeUnit::Bytes ==> bytes >= scaled.1,
{
    if bytes >= 1_073_741_824 {
        (SizeUnit::Gigabytes, 1_073_741_824)
    } else if bytes >= 1_048_576 {
        (SizeUnit::Megabytes, 1_048_576)
    } else if bytes >= 1024 {
        (SizeUnit::Kilobytes, 1024)
    } else {
        (SizeUnit::Bytes, 1)
    }
}

/// The seconds that a memory expiring at `expires_at` has left at time
/// `now`; none when it has expired.
pub fn seconds_left(expires_at: u64, now: u64) -> (left: Option<u64>)
    ensures
        left == (if now >= expires_at {
            None
        } else {
            Some((expires_at - now) as u64)
        }),
{
    if now >= expires_at {
        None
    } else {
        Some(expires_at - now)
    }
}

/// The length of a text in bytes, as `str::len` reports it.
pub open spec fn byte_len(text: Seq<char>) -> usize {
    encode_utf8(text).len() as usize
}

/// What is shown of a text when at most `max_len` bytes of it fit: all of
/// it, or its first `max_len` bytes and three dots.
pub open spec fn preview_of(text: Seq<char>, max_len: usize) -> Seq<char> {
    if byte_len(text) > max_len {
        decode_utf8(encode_utf8(text).subrange(0, max_len as int)) + "..."@
    } else {
        text
    }
}

/// Shortens a text to its first `max_len` bytes, followed by three dots,
/// unless it is no longer than that. The cut must not fall inside a
/// character.
pub fn extract_preview(text: &str, max_len: usize) -> (shown: String)
    requires
        byte_len(text@) > max_len ==> is_char_boundary(encode_utf8(text@), max_len as int),
    ensures
        shown@ == preview_of(text@, max_len),
{
    if text.len() > max_len {
        let (head, _) = text.split_at(max_len);
        proof {
            encode_utf8_decode_utf8(head@);
            assert(head.spec_bytes() == encode_utf8(head@));
            assert(text.spec_bytes() == encode_utf8(text@));
            assert(encode_utf8(head@) == encode_utf8(text@).subrange(0, max_len as int));
            assert(decode_utf8(encode_utf8(text@).subrange(0, max_len as int)) == head@);
        }
        let mut shown = String::from_str(head);
        shown.append("...");
        shown
    } else {
        String::from_str(text)
    }
}

} // verus!
