//! Password hashing and verification through the bcrypt crate. The
//! hash carries its own salt and cost, so verification is a pure
//! function of the password and the hash string; hashing draws a fresh
//! random salt, so nothing relates two hashes of the same password.

use vstd::prelude::*;

verus! {

/// Whether `bcrypt::verify(password, hash)` accepts `password` against
/// `hash`. Deterministic in its two arguments: the salt and the cost
/// are read back out of the hash string itself.
pub uninterp spec fn bcrypt_matches(password: Seq<char>, hash: Seq<char>) -> bool;

/// Whether `hash` is a well-formed bcrypt hash string: 60 ASCII bytes
/// in the `$2?$cc$...` shape with an allowed cost, which is what
/// `bcrypt::verify` parses without error. Every string that
/// `bcrypt::hash` returns is well-formed.
pub uninterp spec fn is_bcrypt_hash(hash: Seq<char>) -> bool;

/// Relies on `bcrypt::BcryptError`, the error type of the two calls
/// below; it is carried through opaquely and mapped to a library error
/// by the callers.
#[verifier::external_type_specification]
#[verifier::external_body]
pub struct ExBcryptError(bcrypt::BcryptError);

/// Relies on `bcrypt::hash` with `DEFAULT_COST`: on success the result
/// is a well-formed hash that `bcrypt::verify` accepts against the same
/// password; with a valid cost it fails only when the operating
/// system's randomness source does.
#[verifier::external_body]
pub(crate) fn bcrypt_hash_password(password: &str) -> (r: Result<String, bcrypt::BcryptError>)
    ensures
        r matches Ok(h) ==> is_bcrypt_hash(h@) && bcrypt_matches(password@, h@),
{
    bcrypt::hash(password, bcrypt::DEFAULT_COST)
}

/// Relies on `bcrypt::verify`: deterministic in the password and the
/// hash, and total on well-formed hashes.
#[verifier::external_body]
pub(crate) fn bcrypt_verify_password(password: &str, hash: &str) -> (r: Result<
    bool,
    bcrypt::BcryptError,
>)
    ensures
        r matches Ok(b) ==> b == bcrypt_matches(password@, hash@),
        is_bcrypt_hash(hash@) ==> r is Ok,
{
    bcrypt::verify(password, hash)
}

} // verus!
