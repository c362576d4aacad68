//! Fresh identifiers for stored rows.
use vstd::prelude::*;

verus! {

/// Relies on `ulid::Ulid::new` and `ulid::Ulid::to_string`: a new ULID in its
/// Crockford base32 text form, which is always 26 characters long.
#[verifier::external_body]
pub(crate) fn new_ulid() -> (r: String)
    ensures
        r@.len() == 26,
{
    ulid::Ulid::new().to_string()
}

} // verus!
