//! Generation of fresh record identifiers.

use vstd::prelude::*;

verus! {

/// Relies on `uuid::Uuid::new_v4` and on `Uuid`'s `Display`, which renders
/// the hyphenated form: 36 characters. The value is random, so nothing is
/// promised of it beyond its length.
#[verifier::external_body]
pub(crate) fn new_uuid() -> (r: String)
    ensures
        r@.len() == 36,
{
    uuid::Uuid::new_v4().to_string()
}

} // verus!
