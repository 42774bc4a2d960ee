//! Password hashing with Argon2 (default parameters, random salt).

use vstd::prelude::*;
use vstd::utf8::encode_utf8;
use argon2::password_hash::rand_core::OsRng;
use argon2::password_hash::{PasswordHash, PasswordHasher, PasswordVerifier, SaltString};
use argon2::Argon2;
use crate::error::AppError;

verus! {

/// Whether Argon2 with default parameters accepts `password` against the PHC
/// string `hash` (`None` when `hash` is not a PHC hash string).
pub uninterp spec fn argon2_accepts(password: Seq<u8>, hash: Seq<char>) -> Option<bool>;

/// `PasswordHash::new` then `Argon2::default().verify_password(..).is_ok()`.
#[verifier::external_body]
fn argon2_verify(password: &str, hash: &str) -> (r: Option<bool>)
    ensures
        r == argon2_accepts(encode_utf8(password@), hash@),
{
    match PasswordHash::new(hash) {
        Ok(parsed) => Some(Argon2::default().verify_password(password.as_bytes(), &parsed).is_ok()),
        Err(_) => None,
    }
}

/// `Argon2::default().hash_password` with a fresh `SaltString::generate(&mut OsRng)`,
/// as a PHC string. The salt is random, so only this is promised of the
/// result: verifying the same password against it succeeds.
#[verifier::external_body]
fn argon2_hash(password: &str) -> (r: Option<String>)
    ensures
        r matches Some(h) ==> argon2_accepts(encode_utf8(password@), h@) == Some(true),
{
    let salt = SaltString::generate(&mut OsRng);
    match Argon2::default().hash_password(password.as_bytes(), &salt) {
        Ok(h) => Some(h.to_string()),
        Err(_) => None,
    }
}

/// A new stored hash for `password`; the password verifies against it.
pub fn hash_password(password: &str) -> (r: Result<String, AppError>)
    ensures
        match r {
            Ok(h) => argon2_accepts(encode_utf8(password@), h@) == Some(true),
            Err(e) => e matches AppError::Internal(m) && m@ == "Failed to hash password"@,
        },
{
    match argon2_hash(password) {
        Some(h) => Ok(h),
        None => Err(AppError::Internal(String::from_str("Failed to hash password"))),
    }
}

/// Whether `password` matches the stored hash; a stored value that is not a
/// hash string is an internal error.
pub fn verify_password(password: &str, password_hash: &str) -> (r: Result<bool, AppError>)
    ensures
        match argon2_accepts(encode_utf8(password@), password_hash@) {
            Some(b) => r == Ok::<bool, AppError>(b),
            None => r matches Err(AppError::Internal(m)) && m@ == "Invalid stored password hash"@,
        },
{
    match argon2_verify(password, password_hash) {
        Some(b) => Ok(b),
        None => Err(AppError::Internal(String::from_str("Invalid stored password hash"))),
    }
}

} // verus!
