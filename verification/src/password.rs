//! Password hashing and verification.
//!
//! Hashing derives a salted, memory-hard digest and returns a self-describing
//! PHC string; verification parses such a string and recomputes the digest.
//! The two outcomes are kept distinct: a malformed hash string is a server
//! fault, a password that merely does not match is an ordinary `false`.

use vstd::prelude::*;
use argon2::{PasswordHasher, PasswordVerifier};
use crate::error::{HttpResponseError, is_internal_error};

verus! {

/// Whether `h` is a well-formed PHC-format hash string.
pub uninterp spec fn phc_parses(h: Seq<char>) -> bool;

/// Whether password `p` matches the PHC hash string `h`.
pub uninterp spec fn password_matches(p: Seq<char>, h: Seq<char>) -> bool;

/// Relies on argon2's `Argon2::default().hash_password` (fresh random salt)
/// and the PHC rendering of the result: whatever salt is drawn, the returned
/// text is a well-formed PHC hash that the same password matches.
#[verifier::external_body]
fn argon2_hash(password: &str) -> (r: Option<String>)
    ensures
        r matches Some(h) ==> phc_parses(h@) && password_matches(password@, h@),
{
    let argon2 = argon2::Argon2::default();
    match argon2.hash_password(password.as_bytes()) {
        Ok(h) => Some(h.to_string()),
        Err(_) => None,
    }
}

/// Relies on `PasswordHash::new` and argon2's `verify_password`: both
/// results are functions of the password and hash text alone. Yields
/// nothing exactly when the hash text is not a well-formed PHC string.
#[verifier::external_body]
fn argon2_verify(password: &str, password_hash: &str) -> (r: Option<bool>)
    ensures
        (r is Some) == phc_parses(password_hash@),
        r matches Some(b) ==> b == password_matches(password@, password_hash@),
{
    let parsed = match argon2::PasswordHash::new(password_hash) {
        Ok(p) => p,
        Err(_) => return None,
    };
    let result = argon2::Argon2::default().verify_password(password.as_bytes(), &parsed);
    Some(result.is_ok())
}

/// Hashes `password` with a fresh random salt. On success the returned PHC
/// string is one that `verify_password` accepts and that `password` matches;
/// the only failure is an internal hashing fault.
pub fn hash_password(password: &str) -> (r: Result<String, HttpResponseError>)
    ensures
        r matches Ok(h) ==> phc_parses(h@) && password_matches(password@, h@),
        r matches Err(e) ==> is_internal_error(e),
{
    match argon2_hash(password) {
        Some(h) => Ok(h),
        None => Err(HttpResponseError::internal_server_error()),
    }
}

/// Verifies `password` against a stored PHC hash string. A malformed hash
/// string is a server fault; a mismatching password is `Ok(false)`.
pub fn verify_password(password: &str, password_hash: &str) -> (r: Result<
    bool,
    HttpResponseError,
>)
    ensures
        (r is Ok) == phc_parses(password_hash@),
        r matches Ok(b) ==> b == password_matches(password@, password_hash@),
        r matches Err(e) ==> is_internal_error(e),
{
    match argon2_verify(password, password_hash) {
        Some(b) => Ok(b),
        None => Err(HttpResponseError::internal_server_error()),
    }
}

} // verus!
