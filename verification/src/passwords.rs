//! Password hashing, delegated to the bcrypt crate through trusted
//! wrappers. Whether a password matches a stored hash, and whether a
//! stored hash is well formed at all, are pure functions of the
//! strings; each gets a name here, and the library's contracts speak
//! of those names.

use vstd::prelude::*;

verus! {

/// Whether `password` is equivalent to the bcrypt hash `hash`.
pub uninterp spec fn password_matches(password: Seq<char>, hash: Seq<char>) -> bool;

/// Whether `hash` is a well-formed bcrypt hash: 60 ASCII bytes with a
/// bcrypt prefix, a numeric cost in the allowed range, and base64 salt
/// and digest parts. Comparing a password against a hash succeeds
/// exactly for well-formed hashes.
pub uninterp spec fn bcrypt_valid_hash(hash: Seq<char>) -> bool;

/// Relies on bcrypt::verify: whether a password is equivalent to a hash
/// is computed from the two strings alone, and the call fails exactly
/// when the stored hash cannot be parsed — a condition on the hash
/// string alone, since the cost is read from it and password
/// truncation is silent.
#[verifier::external_body]
pub(crate) fn verify_password(password: &str, hash: &str) -> (r: Result<bool, ()>)
    ensures
        r is Ok <==> bcrypt_valid_hash(hash@),
        r is Ok ==> r->Ok_0 == password_matches(password@, hash@),
{
    match bcrypt::verify(password, hash) {
        Ok(b) => Ok(b),
        Err(_) => Err(()),
    }
}

/// Relies on bcrypt::hash: the salt comes from OS randomness, so no two
/// calls need agree and success cannot be promised (drawing the salt
/// can fail); but every hash it emits is a well-formed bcrypt hash that
/// verifies against the password it was produced from.
#[verifier::external_body]
pub(crate) fn hash_password(password: &str) -> (r: Result<String, ()>)
    ensures
        r is Ok ==> password_matches(password@, r->Ok_0@),
        r is Ok ==> bcrypt_valid_hash(r->Ok_0@),
{
    match bcrypt::hash(password, bcrypt::DEFAULT_COST) {
        Ok(h) => Ok(h),
        Err(_) => Err(()),
    }
}

} // verus!
