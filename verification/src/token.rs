//! Session token generation through the uuid crate.

use vstd::prelude::*;

verus! {

/// Relies on `uuid::Uuid::new_v4` and its `Display` form: a fresh
/// random version-4 UUID rendered as 36 hyphenated lower-case hex
/// characters. The value is random, so only its shape can be promised.
#[verifier::external_body]
pub(crate) fn fresh_token() -> (r: String)
    ensures
        r@.len() == 36,
{
    uuid::Uuid::new_v4().to_string()
}

} // verus!
