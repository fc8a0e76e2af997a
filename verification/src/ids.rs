//! Random identifiers.
use vstd::prelude::*;

verus! {

/// A fresh random UUID v4 in its hyphenated form (`uuid::Uuid::new_v4`, displayed).
/// Its 36 characters are all that is stated of it: the value is random.
#[verifier::external_body]
pub(crate) fn new_uuid() -> (s: String)
    ensures
        s@.len() == 36,
{
    uuid::Uuid::new_v4().to_string()
}

} // verus!
