//! Document metadata: JSON values of the `serde_json` crate, carried through
//! the engine unread.

use serde_json::Value;
use vstd::prelude::*;

verus! {

#[verifier::external_type_specification]
#[verifier::external_body]
pub struct ExValue(Value);

/// `Value::clone`: a duplicate of the value.
pub assume_specification[ <Value as Clone>::clone ](value: &Value) -> (copy: Value)
    ensures
        copy == *value,
;

} // verus!
