//! Document identifiers: 128-bit UUIDs of the `uuid` crate, carried through
//! the engine as they are.

use uuid::Uuid;
use vstd::prelude::*;

verus! {

#[verifier::external_type_specification]
#[verifier::external_body]
pub struct ExUuid(Uuid);

#[verifier::external_type_specification]
#[verifier::external_body]
pub struct ExUuidError(uuid::Error);

/// The sixteen bytes of an identifier.
pub uninterp spec fn uuid_bytes(id: Uuid) -> Seq<u8>;

/// `Uuid::clone`: a copy of the identifier, which is a plain value.
pub assume_specification[ <Uuid as Clone>::clone ](id: &Uuid) -> (copy: Uuid)
    ensures
        copy == *id,
;

/// Length of an identifier in bytes.
pub const ID_LEN: usize = 16;

/// Calls `Uuid::from_slice`: an identifier made of exactly the given bytes,
/// or an error when there are not sixteen of them.
#[verifier::external_body]
pub(crate) fn uuid_from_slice(key: &[u8]) -> (parsed: Result<Uuid, uuid::Error>)
    ensures
        parsed is Ok <==> key@.len() == ID_LEN,
        parsed matches Ok(id) ==> uuid_bytes(id) == key@,
{
    Uuid::from_slice(key)
}

} // verus!
