//! Password hashing and verification, done by the `bcrypt` crate.

use vstd::prelude::*;

verus! {

/// The error type of the `bcrypt` crate, carried through unread.
#[verifier::external_type_specification]
#[verifier::external_body]
pub struct ExBcryptError(bcrypt::BcryptError);

/// What `bcrypt::verify` answers for a password and a stored hash: `Some`
/// of its verdict, or `None` where it reports an error, as it does for a
/// hash that is not well formed.
pub uninterp spec fn bcrypt_verdict(password: Seq<char>, hash: Seq<char>) -> Option<bool>;

/// Hashes a password with a random salt at the default cost.
///
/// Trusted: calls `bcrypt::hash` with `bcrypt::DEFAULT_COST`. The salt is
/// random, and the call fails where the operating system supplies no
/// random bytes, so nothing is claimed of which hash comes back, nor that
/// one does. The contract claims that a hash that does come back verifies
/// against the password it was made from: `hash` writes cost, salt and
/// digest into the string, and `verify` reads them back and recomputes the
/// digest from the same password.
#[verifier::external_body]
pub(crate) fn hash_password(password: &str) -> (hashed: Result<String, bcrypt::BcryptError>)
    ensures
        hashed is Ok ==> bcrypt_verdict(password@, hashed->Ok_0@) == Some(true),
{
    bcrypt::hash(password, bcrypt::DEFAULT_COST)
}

/// Checks a password against a stored hash.
///
/// Trusted: calls `bcrypt::verify` and drops the error of a malformed
/// hash. The contract only gives the answer its name: `verify` computes it
/// from the two strings and from nothing else.
#[verifier::external_body]
pub(crate) fn verify_password(password: &str, hash: &str) -> (verdict: Option<bool>)
    ensures
        verdict == bcrypt_verdict(password@, hash@),
{
    bcrypt::verify(password, hash).ok()
}

/// Whether a verdict of the password check lets the user in: only a plain
/// yes does, a malformed hash does not.
pub fn accepted(verdict: Option<bool>) -> (ok: bool)
    ensures
        ok == (verdict == Some(true)),
{
    match verdict {
        Some(matches) => matches,
        None => false,
    }
}

} // verus!
