//! Ingestion: what is derived from a document's embedding before it is
//! written to the store.

use vstd::prelude::*;
use vstd::string::StringExecFns;

use crate::engine::bq::encode_bq;
use crate::engine::bq::max_bits;
use crate::engine::bq::pack_msb0;
use crate::engine::bq::packed_len;
use crate::engine::bq::sign_bits;
use crate::storage::schema::StoreError;
use crate::storage::schema::StoreSchema;

verus! {

/// The three vectors that the store keeps of a document, all derived from
/// one embedding.
#[derive(Debug, Clone)]
pub struct EmbeddingTriple {
    /// The embedding itself, as binary32 patterns.
    pub full: Vec<u32>,
    /// Its renormalised prefix, as binary32 patterns.
    pub short: Vec<u32>,
    /// Its packed sign bits.
    pub bits: Vec<u8>,
}

/// The title of a document without one.
pub open spec fn untitled() -> Seq<char> {
    "Untitled"@
}

/// The title under which a document is stored: its own, or `Untitled`.
pub fn title_or_default(title: Option<&str>) -> (stored: String)
    ensures
        stored@ == (match title {
            Some(text) => text@,
            None => untitled(),
        }),
{
    match title {
        Some(text) => String::from_str(text),
        None => String::from_str("Untitled"),
    }
}

/// Makes the triple of vectors under which a document is stored, from its
/// embedding and the renormalised prefix of it: checks both against the
/// store's dimensions and encodes the sign bits.
pub fn prepare_triple(schema: &StoreSchema, full: Vec<u32>, short: Vec<u32>) -> (prepared: Result<
    EmbeddingTriple,
    StoreError,
>)
    requires
        full@.len() <= max_bits(),
    ensures
        prepared is Ok <==> full@.len() == schema.dim && short@.len() == schema.short_len(),
        prepared matches Err(refusal) ==> schema.triple_objection(
            full@.len(),
            short@.len(),
            schema.bit_len(),
        ) == Some(refusal),
        prepared matches Ok(triple) ==> {
            &&& triple.full == full
            &&& triple.short == short
            &&& triple.bits@ == pack_msb0(sign_bits(full@))
            &&& triple.bits@.len() == schema.bit_len()
        },
{
    match schema.check_triple(full.len(), short.len(), schema.bit_bytes()) {
        Err(refusal) => Err(refusal),
        Ok(()) => {
            let bits = encode_bq(full.as_slice());
            assert(packed_len(full@.len()) == schema.bit_len());
            Ok(EmbeddingTriple { full, short, bits })
        },
    }
}

/// The byte that opens a JSON object.
pub const OPEN_BRACE: u8 = 0x7B;

/// The byte that closes a JSON object.
pub const CLOSE_BRACE: u8 = 0x7D;

/// The first place at or after `from` at which the byte `wanted` stands, or
/// the length when it stands at none.
pub open spec fn first_index(bytes: Seq<u8>, wanted: u8, from: int) -> int
    decreases bytes.len() - from,
{
    if from >= bytes.len() {
        bytes.len() as int
    } else if bytes[from] == wanted {
        from
    } else {
        first_index(bytes, wanted, from + 1)
    }
}

/// One more than the last place before `upto` at which the byte `wanted`
/// stands, or zero when it stands at none.
pub open spec fn end_of_last(bytes: Seq<u8>, wanted: u8, upto: int) -> int
    decreases upto,
{
    if upto <= 0 {
        0
    } else if bytes[upto - 1] == wanted {
        upto
    } else {
        end_of_last(bytes, wanted, upto - 1)
    }
}

/// The stretch of an answer that is taken for its JSON object, as the
/// places where it begins and ends: from the first opening brace to the
/// last closing brace; to the end where no brace closes; and the whole
/// answer where no brace opens.
pub open spec fn json_bounds_of(bytes: Seq<u8>) -> (int, int) {
    let start = first_index(bytes, OPEN_BRACE, 0);
    let end = end_of_last(bytes, CLOSE_BRACE, bytes.len() as int);
    if start == bytes.len() {
        (0, bytes.len() as int)
    } else if end == 0 {
        (start, bytes.len() as int)
    } else {
        (start, end)
    }
}

/// Finds the stretch of a language model's answer that is taken for its
/// JSON object.
pub fn json_bounds(content: &[u8]) -> (bounds: (usize, usize))
    ensures
        (bounds.0 as int, bounds.1 as int) == json_bounds_of(content@),
        bounds.0 <= content@.len(),
        bounds.1 <= content@.len(),
{
    let mut start: usize = 0;
    while start < content.len() && content[start] != OPEN_BRACE
        invariant
            start <= content@.len(),
            first_index(content@, OPEN_BRACE, 0) == first_index(content@, OPEN_BRACE, start as int),
        decreases content@.len() - start,
    {
        start += 1;
    }
    if start == content.len() {
        return (0, content.len());
    }
    let mut end: usize = content.len();
    while end > 0 && content[end - 1] != CLOSE_BRACE
        invariant
            end <= content@.len(),
            end_of_last(content@, CLOSE_BRACE, content@.len() as int) == end_of_last(
                content@,
                CLOSE_BRACE,
                end as int,
            ),
        decreases end,
    {
        end -= 1;
    }
    if end == 0 {
        (start, content.len())
    } else {
        (start, end)
    }
}

} // verus!
