//! The dimensions of a store, fixed when it is made, and the checks that
//! every insertion and every reading of a row goes through.

use vstd::prelude::*;

use uuid::Uuid;

use crate::error::ErrorKind;

verus! {

/// One of the three vector columns that every document has a row in.
#[derive(Debug, Clone, Copy, PartialEq, Eq, Structural)]
pub enum Column {
    /// The full vector: as many components as the store's dimension.
    Full,
    /// The renormalised prefix: a third as many, rounded down.
    Short,
    /// The packed sign bits: one bit for each component of the full vector.
    Bit,
}

/// Why the store refuses something.
#[derive(Debug, Clone, Copy, PartialEq, Eq, Structural)]
pub enum StoreError {
    /// The store was made for `recorded` dimensions and is opened for
    /// `requested`.
    WrongDimension { recorded: usize, requested: usize },
    /// A vector offered for `column` has `found` elements where the store
    /// holds `expected`.
    DimensionMismatch { column: Column, expected: usize, found: usize },
    /// The identifier offered for insertion is in the store already.
    DuplicateId,
    /// No document has the identifier asked for.
    NotFound,
    /// A document lacks some of its vectors, or vectors lack their document.
    Corrupt,
}

/// The kind of failure that a refusal of the store is.
pub open spec fn kind_of(error: StoreError) -> ErrorKind {
    match error {
        StoreError::WrongDimension { .. } => ErrorKind::DimensionMismatch,
        StoreError::DimensionMismatch { .. } => ErrorKind::DimensionMismatch,
        StoreError::DuplicateId => ErrorKind::InvalidArgument,
        StoreError::NotFound => ErrorKind::NotFound,
        StoreError::Corrupt => ErrorKind::StorageCorrupt,
    }
}

impl StoreError {
    /// The kind of this failure.
    pub fn kind(&self) -> (kind: ErrorKind)
        ensures
            kind == kind_of(*self),
    {
        match self {
            StoreError::WrongDimension { .. } => ErrorKind::DimensionMismatch,
            StoreError::DimensionMismatch { .. } => ErrorKind::DimensionMismatch,
            StoreError::DuplicateId => ErrorKind::InvalidArgument,
            StoreError::NotFound => ErrorKind::NotFound,
            StoreError::Corrupt => ErrorKind::StorageCorrupt,
        }
    }
}

/// What the four tables hold for one identifier.
#[derive(Debug, Clone, Copy, PartialEq, Eq, Structural)]
pub struct Presence {
    /// Whether the documents table has a row.
    pub document: bool,
    /// Whether the table of full vectors has a row.
    pub full: bool,
    /// Whether the table of short vectors has a row.
    pub short: bool,
    /// Whether the table of bit vectors has a row.
    pub bit: bool,
}

/// How the four tables stand to each other for one identifier.
#[derive(Debug, Clone, Copy, PartialEq, Eq, Structural)]
pub enum RowState {
    /// No table has a row: the document is not in the store.
    Absent,
    /// Every table has a row: the document is in the store.
    Complete,
    /// Some tables have a row and others have none: the store is corrupt.
    Torn,
}

/// The state that a presence amounts to.
pub open spec fn state_of(presence: Presence) -> RowState {
    if presence.document && presence.full && presence.short && presence.bit {
        RowState::Complete
    } else if !presence.document && !presence.full && !presence.short && !presence.bit {
        RowState::Absent
    } else {
        RowState::Torn
    }
}

/// Probes the consistency of the four tables for one identifier.
pub fn probe_consistency(presence: Presence) -> (state: RowState)
    ensures
        state == state_of(presence),
{
    if presence.document && presence.full && presence.short && presence.bit {
        RowState::Complete
    } else if !presence.document && !presence.full && !presence.short && !presence.bit {
        RowState::Absent
    } else {
        RowState::Torn
    }
}

/// Taking one row away from a complete document, or leaving one behind when
/// the rest is gone, shows as a torn state.
pub proof fn lemma_removal_shows(presence: Presence, after: Presence)
    requires
        state_of(presence) == RowState::Complete,
        after != presence,
        after.document || after.full || after.short || after.bit,
    ensures
        state_of(after) == RowState::Torn,
{
}

/// What four tables, each given by the identifiers that it has a row for,
/// hold for one identifier.
pub open spec fn presence_in(
    id: Uuid,
    documents: Set<Uuid>,
    full: Set<Uuid>,
    short: Set<Uuid>,
    bit: Set<Uuid>,
) -> Presence {
    Presence {
        document: documents.contains(id),
        full: full.contains(id),
        short: short.contains(id),
        bit: bit.contains(id),
    }
}

/// The four tables hold rows for the same identifiers exactly when the
/// probe finds no identifier torn: every document has its three vectors,
/// and every vector its document.
pub proof fn lemma_consistent_iff_nothing_torn(
    documents: Set<Uuid>,
    full: Set<Uuid>,
    short: Set<Uuid>,
    bit: Set<Uuid>,
)
    ensures
        (documents =~= full && documents =~= short && documents =~= bit) <==> (forall|id: Uuid|
            state_of(#[trigger] presence_in(id, documents, full, short, bit)) != RowState::Torn),
{
    if forall|id: Uuid|
        state_of(#[trigger] presence_in(id, documents, full, short, bit)) != RowState::Torn {
        assert forall|id: Uuid|
            documents.contains(id) == full.contains(id) && documents.contains(id)
                == short.contains(id) && documents.contains(id) == bit.contains(id) by {
            let presence = presence_in(id, documents, full, short, bit);
            assert(state_of(presence) != RowState::Torn);
        }
    }
}

/// The dimensions of a store.
#[derive(Debug, Clone, Copy, PartialEq, Eq, Structural)]
pub struct StoreSchema {
    /// Number of components of a full vector.
    pub dim: usize,
}

impl StoreSchema {
    /// Number of components of a short vector.
    pub open spec fn short_len(&self) -> nat {
        (self.dim / 3) as nat
    }

    /// Number of bytes of a bit vector.
    pub open spec fn bit_len(&self) -> nat {
        ((self.dim + 7) / 8) as nat
    }

    /// What the store objects to in a triple of vectors with the given
    /// numbers of elements, if anything: the first column, in the order
    /// full, short, bit, whose length is not the store's.
    pub open spec fn triple_objection(&self, full: nat, short: nat, bit: nat) -> Option<
        StoreError,
    > {
        if full != self.dim {
            Some(
                StoreError::DimensionMismatch {
                    column: Column::Full,
                    expected: self.dim,
                    found: full as usize,
                },
            )
        } else if short != self.short_len() {
            Some(
                StoreError::DimensionMismatch {
                    column: Column::Short,
                    expected: self.short_len() as usize,
                    found: short as usize,
                },
            )
        } else if bit != self.bit_len() {
            Some(
                StoreError::DimensionMismatch {
                    column: Column::Bit,
                    expected: self.bit_len() as usize,
                    found: bit as usize,
                },
            )
        } else {
            None
        }
    }

    /// What the store objects to in an insertion, if anything: rows that
    /// disagree, else an identifier that it holds already, else a vector of
    /// the wrong length.
    pub open spec fn insert_objection(
        &self,
        presence: Presence,
        full: nat,
        short: nat,
        bit: nat,
    ) -> Option<StoreError> {
        match state_of(presence) {
            RowState::Torn => Some(StoreError::Corrupt),
            RowState::Complete => Some(StoreError::DuplicateId),
            RowState::Absent => self.triple_objection(full, short, bit),
        }
    }

    /// Opens a store for `requested` dimensions. A new store takes them; a
    /// store that was made for other dimensions refuses.
    pub fn open(recorded: Option<usize>, requested: usize) -> (opened: Result<
        StoreSchema,
        StoreError,
    >)
        ensures
            opened is Err <==> (recorded matches Some(dim) && dim != requested),
            opened matches Err(refusal) ==> refusal == (StoreError::WrongDimension {
                recorded: recorded->0,
                requested,
            }),
            opened matches Ok(schema) ==> schema.dim == requested,
    {
        match recorded {
            Some(dim) => {
                if dim != requested {
                    return Err(StoreError::WrongDimension { recorded: dim, requested });
                }
                Ok(StoreSchema { dim })
            },
            None => Ok(StoreSchema { dim: requested }),
        }
    }

    /// Computes the number of components of a short vector.
    pub fn short_dim(&self) -> (m: usize)
        ensures
            m == self.short_len(),
    {
        self.dim / 3
    }

    /// Computes the number of bytes of a bit vector.
    pub fn bit_bytes(&self) -> (bytes: usize)
        ensures
            bytes == self.bit_len(),
    {
        if self.dim % 8 == 0 {
            self.dim / 8
        } else {
            self.dim / 8 + 1
        }
    }

    /// Checks the lengths of a triple of vectors against the store's.
    pub fn check_triple(&self, full: usize, short: usize, bit: usize) -> (checked: Result<
        (),
        StoreError,
    >)
        ensures
            checked is Ok <==> full == self.dim && short == self.short_len() && bit
                == self.bit_len(),
            checked matches Err(refusal) ==> self.triple_objection(
                full as nat,
                short as nat,
                bit as nat,
            ) == Some(refusal),
    {
        if full != self.dim {
            return Err(
                StoreError::DimensionMismatch {
                    column: Column::Full,
                    expected: self.dim,
                    found: full,
                },
            );
        }
        let m = self.short_dim();
        if short != m {
            return Err(
                StoreError::DimensionMismatch { column: Column::Short, expected: m, found: short },
            );
        }
        let bytes = self.bit_bytes();
        if bit != bytes {
            return Err(
                StoreError::DimensionMismatch { column: Column::Bit, expected: bytes, found: bit },
            );
        }
        Ok(())
    }

    /// Checks an insertion: the identifier must be new to the store, and the
    /// three vectors must have the store's lengths. `presence` says what the
    /// four tables hold for the identifier.
    pub fn check_insert(&self, presence: Presence, full: usize, short: usize, bit: usize) -> (checked:
        Result<(), StoreError>)
        ensures
            checked is Ok <==> state_of(presence) == RowState::Absent && full == self.dim && short
                == self.short_len() && bit == self.bit_len(),
            checked matches Err(refusal) ==> self.insert_objection(
                presence,
                full as nat,
                short as nat,
                bit as nat,
            ) == Some(refusal),
    {
        match probe_consistency(presence) {
            RowState::Torn => Err(StoreError::Corrupt),
            RowState::Complete => Err(StoreError::DuplicateId),
            RowState::Absent => self.check_triple(full, short, bit),
        }
    }
}

/// What asking for a document by its identifier comes to, given what the
/// four tables hold for it: nothing to object to when the document is
/// complete, else that it is not found, or that the store is corrupt.
pub open spec fn lookup_objection(presence: Presence) -> Option<StoreError> {
    match state_of(presence) {
        RowState::Complete => None,
        RowState::Absent => Some(StoreError::NotFound),
        RowState::Torn => Some(StoreError::Corrupt),
    }
}

/// Checks that a document asked for by its identifier can be handed out.
pub fn check_lookup(presence: Presence) -> (checked: Result<(), StoreError>)
    ensures
        checked is Ok <==> state_of(presence) == RowState::Complete,
        checked matches Err(refusal) ==> lookup_objection(presence) == Some(refusal),
{
    match probe_consistency(presence) {
        RowState::Complete => Ok(()),
        RowState::Absent => Err(StoreError::NotFound),
        RowState::Torn => Err(StoreError::Corrupt),
    }
}

/// Whether a search takes a candidate into account: only when its document
/// is complete. A candidate whose rows disagree is passed over like one
/// that is gone.
pub fn searchable(presence: Presence) -> (found: bool)
    ensures
        found == (state_of(presence) == RowState::Complete),
{
    match probe_consistency(presence) {
        RowState::Complete => true,
        _ => false,
    }
}

} // verus!
