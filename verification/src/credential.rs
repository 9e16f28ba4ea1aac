//! Password credentials: salted one-way hashing and constant-time
//! verification, through bcrypt.

use vstd::prelude::*;

use crate::error::AppError;

verus! {

/// Whether bcrypt's `verify` accepts `password` against the stored
/// credential `credential`. `verify` recomputes the hash from the salt
/// and cost embedded in the credential, so its outcome depends on these
/// two arguments alone.
pub uninterp spec fn bcrypt_matches(password: Seq<char>, credential: Seq<char>) -> bool;

/// Whether `credential` is a well-formed stored credential: one that
/// bcrypt's `verify` can check a password against at all. `verify`'s
/// error paths (format, salt, cost) read the credential alone, never
/// the password, so well-formedness depends on the credential alone;
/// everything `hash` produces is well-formed.
pub uninterp spec fn bcrypt_credential(credential: Seq<char>) -> bool;

/// Hash a password with a fresh random salt at the default work factor.
///
/// Relies on bcrypt::hash: it returns a well-formed credential that
/// bcrypt::verify accepts for the same password, and errs only on an
/// internal failure (the salt comes from the OS random source), never
/// on the input's shape.
#[verifier::external_body]
pub fn hash_password(password: &str) -> (r: Result<String, AppError>)
    ensures
        match r {
            Ok(credential) => bcrypt_matches(password@, credential@) && bcrypt_credential(
                credential@,
            ),
            Err(e) => e == AppError::Internal,
        },
{
    bcrypt::hash(password, bcrypt::DEFAULT_COST).map_err(|_| AppError::Internal)
}

/// Check a password against a stored credential.
///
/// Relies on bcrypt::verify: a deterministic function of the password
/// and the credential (the salt and cost are read back out of the
/// credential); it errs exactly on a malformed credential, never merely
/// because the password is wrong.
#[verifier::external_body]
pub fn verify_password(password: &str, credential: &str) -> (r: Result<bool, AppError>)
    ensures
        r is Ok <==> bcrypt_credential(credential@),
        match r {
            Ok(b) => b == bcrypt_matches(password@, credential@),
            Err(e) => e == AppError::Internal,
        },
{
    bcrypt::verify(password, credential).map_err(|_| AppError::Internal)
}

/// Hashing a password and verifying it against the fresh credential
/// always matches: the round trip every registration-then-login depends
/// on. Only the hashing step itself can fail, and only internally.
pub fn password_round_trip(password: &str) -> (r: Result<bool, AppError>)
    ensures
        match r {
            Ok(b) => b,
            Err(e) => e == AppError::Internal,
        },
{
    let credential = hash_password(password)?;
    verify_password(password, credential.as_str())
}

} // verus!
