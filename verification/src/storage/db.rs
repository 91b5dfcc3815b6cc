//! The records of the store.

use serde_json::Value;
use uuid::Uuid;
use vstd::prelude::*;

use crate::storage::tier::expired_at;
use crate::storage::tier::is_expired_at;
use crate::storage::tier::MemoryTier;

verus! {

/// A memory: a document's metadata with its vector and sign bits.
#[derive(Debug, Clone)]
pub struct Memory {
    pub id: Uuid,
    pub metadata: Value,
    /// The full vector, as binary32 patterns.
    pub vector: Vec<u32>,
    /// The packed sign bits of the vector.
    pub bit_vector: Vec<u8>,
    pub tier: MemoryTier,
    /// When the memory expires, in seconds since the epoch, if ever.
    pub expires_at: Option<u64>,
}

/// What the metadata table keeps of a memory.
#[derive(Debug, Clone)]
pub struct MemoryEntry {
    pub metadata: Value,
    pub tier: MemoryTier,
    pub expires_at: Option<u64>,
}

/// Whether the three rows read for an identifier make up a memory that is
/// to be handed out at time `now`: all three are there, and the memory has
/// not expired.
pub open spec fn readable(
    entry: Option<MemoryEntry>,
    vector: Option<Vec<u32>>,
    bit_vector: Option<Vec<u8>>,
    now: u64,
) -> bool {
    entry is Some && vector is Some && bit_vector is Some && !expired_at(entry->0.expires_at, now)
}

impl Memory {
    /// Puts a memory together from the rows read for its identifier. There
    /// is no memory when a row is missing, or when it has expired at time
    /// `now`.
    pub fn assemble(
        id: Uuid,
        entry: Option<MemoryEntry>,
        vector: Option<Vec<u32>>,
        bit_vector: Option<Vec<u8>>,
        now: u64,
    ) -> (memory: Option<Memory>)
        ensures
            memory is Some <==> readable(entry, vector, bit_vector, now),
            memory matches Some(m) ==> {
                &&& m.id == id
                &&& m.metadata == entry->0.metadata
                &&& m.tier == entry->0.tier
                &&& m.expires_at == entry->0.expires_at
                &&& m.vector == vector->0
                &&& m.bit_vector == bit_vector->0
            },
    {
        match (entry, vector, bit_vector) {
            (Some(entry), Some(vector), Some(bit_vector)) => {
                if is_expired_at(entry.expires_at, now) {
                    None
                } else {
                    Some(
                        Memory {
                            id,
                            metadata: entry.metadata,
                            vector,
                            bit_vector,
                            tier: entry.tier,
                            expires_at: entry.expires_at,
                        },
                    )
                }
            },
            _ => None,
        }
    }

    /// Takes a memory apart into the three rows that are written for it: the
    /// metadata entry, the vector and the sign bits.
    pub fn into_rows(self) -> (rows: (MemoryEntry, Vec<u32>, Vec<u8>))
        ensures
            rows.0.metadata == self.metadata,
            rows.0.tier == self.tier,
            rows.0.expires_at == self.expires_at,
            rows.1 == self.vector,
            rows.2 == self.bit_vector,
    {
        (
            MemoryEntry { metadata: self.metadata, tier: self.tier, expires_at: self.expires_at },
            self.vector,
            self.bit_vector,
        )
    }
}

/// A memory that is taken apart and put together again before it expires is
/// the same memory.
pub proof fn lemma_rows_make_memory(memory: Memory, now: u64)
    requires
        !expired_at(memory.expires_at, now),
    ensures
        readable(
            Some(
                MemoryEntry {
                    metadata: memory.metadata,
                    tier: memory.tier,
                    expires_at: memory.expires_at,
                },
            ),
            Some(memory.vector),
            Some(memory.bit_vector),
            now,
        ),
{
}

} // verus!
