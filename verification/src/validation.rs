//! Input validation: e-mail syntax and password strength. Both verdicts
//! come from outside crates whose results are pure functions of the
//! input string; each gets a name, and the rules over those names are
//! verified here.

use vstd::prelude::*;

verus! {

/// Whether a string is a syntactically valid e-mail address.
pub uninterp spec fn is_valid_email_addr(s: Seq<char>) -> bool;

/// Relies on email_address::EmailAddress::is_valid: validity is a
/// function of the address string alone.
#[verifier::external_body]
fn check_email(email: &str) -> (r: bool)
    ensures
        r == is_valid_email_addr(email@),
{
    email_address::EmailAddress::is_valid(email)
}

/// Whether `email` is a syntactically valid e-mail address.
pub fn valid_email(email: &str) -> (r: bool)
    ensures
        r == is_valid_email_addr(email@),
{
    check_email(email)
}

/// Relies on zxcvbn::zxcvbn: the strength score ranges over 0..=4. The
/// estimate is not a function of the password alone (its date matcher
/// measures distance from the current year), so nothing more is
/// promised of the outcome; an empty password makes the call fail.
#[verifier::external_body]
fn strength_score(password: &str) -> (r: Result<u8, ()>)
    ensures
        r is Ok ==> r->Ok_0 <= 4,
{
    match zxcvbn::zxcvbn(password, &[]) {
        Ok(e) => Ok(e.score()),
        Err(_) => Err(()),
    }
}

/// Whether a password is acceptable: at least eight characters long and
/// with a strength score of at least 3. The estimate itself comes from
/// the strength call; when it cannot be computed the password is
/// rejected. The length floor deliberately counts characters (code
/// points), not bytes, so a multi-byte character counts once; for ASCII
/// passwords the two coincide. The acceptance rule over a given score
/// is exact in `password_acceptable`.
pub fn valid_password(password: &str) -> (r: bool)
    ensures
        r ==> password@.len() >= 8,
        password@.len() < 8 ==> !r,
{
    if password.unicode_len() < 8 {
        return false;
    }
    match strength_score(password) {
        Ok(score) => password_acceptable(password, score),
        Err(_) => false,
    }
}

/// The acceptance rule applied to a password and an already-computed
/// strength score: at least eight characters and a score of at least 3.
pub fn password_acceptable(password: &str, score: u8) -> (r: bool)
    ensures
        r == (password@.len() >= 8 && score >= 3),
{
    password.unicode_len() >= 8 && score >= 3
}

} // verus!
