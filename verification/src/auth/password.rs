//! Password hashing and checking with Argon2.

use argon2::password_hash::rand_core::{OsRng, RngCore};
use argon2::password_hash::{PasswordHash, PasswordHasher, PasswordVerifier, Salt, SaltString};
use argon2::Argon2;
use vstd::prelude::*;

verus! {

/// Why a password operation failed.
#[derive(Clone, Copy, Debug, PartialEq, Eq, Structural)]
pub enum PasswordError {
    /// The hash could not be computed.
    Hashing,
    /// The stored text is not a password hash.
    MalformedHash,
}

/// What Argon2 with its default settings says of `plaintext` against the
/// stored `hash`: `None` where `hash` is not a hash in PHC string format,
/// otherwise whether the plaintext is the one that was hashed.
pub uninterp spec fn argon2_verdict(plaintext: Seq<char>, hash: Seq<char>) -> Option<bool>;

/// Draws sixteen random bytes from the operating system with
/// `OsRng.try_fill_bytes`, makes the salt of them with
/// `SaltString::encode_b64`, which is what `SaltString::generate` does but
/// for panicking where no random bytes are to be had, and hashes the
/// plaintext with `Argon2::default().hash_password`; the hash comes back in
/// PHC string format. The salt is random, so the text that comes back is not
/// said. What is claimed is what the crate's documentation shows of this
/// sequence of calls: a hash that came out of it parses, and
/// `verify_password` accepts the plaintext against it.
#[verifier::external_body]
fn argon2_hash(plaintext: &str) -> (hash: Option<String>)
    ensures
        hash is Some ==> argon2_verdict(plaintext@, hash->0@) == Some(true),
{
    let mut bytes = [0u8; Salt::RECOMMENDED_LENGTH];
    if OsRng.try_fill_bytes(&mut bytes).is_err() {
        return None;
    }
    let salt = match SaltString::encode_b64(&bytes) {
        Ok(salt) => salt,
        Err(_) => return None,
    };
    match Argon2::default().hash_password(plaintext.as_bytes(), &salt) {
        Ok(hash) => Some(hash.to_string()),
        Err(_) => None,
    }
}

/// Parses the stored text with `PasswordHash::new` and checks the plaintext
/// against it with `Argon2::default().verify_password`. The contract only
/// names the outcome.
#[verifier::external_body]
fn argon2_verify(plaintext: &str, hash: &str) -> (verdict: Option<bool>)
    ensures
        verdict == argon2_verdict(plaintext@, hash@),
{
    match PasswordHash::new(hash) {
        Ok(parsed) => Some(Argon2::default().verify_password(plaintext.as_bytes(), &parsed).is_ok()),
        Err(_) => None,
    }
}

/// What [`password_verify`] returns for a verdict.
pub open spec fn verify_outcome(verdict: Option<bool>) -> Result<bool, PasswordError> {
    match verdict {
        Some(accepted) => Ok(accepted),
        None => Err(PasswordError::MalformedHash),
    }
}

/// Hashes a password under a fresh random salt. Which text comes out is
/// open; a text that comes out is a hash that [`password_verify`] accepts
/// the password against.
pub fn password_hash(plaintext: &str) -> (r: Result<String, PasswordError>)
    ensures
        r is Ok ==> verify_outcome(argon2_verdict(plaintext@, r->Ok_0@)) == Ok::<bool, PasswordError>(
            true,
        ),
        r is Err ==> r->Err_0 == PasswordError::Hashing,
{
    match argon2_hash(plaintext) {
        Some(hash) => Ok(hash),
        None => Err(PasswordError::Hashing),
    }
}

/// Checks a password against a stored hash.
pub fn password_verify(plaintext: &str, hash: &str) -> (r: Result<bool, PasswordError>)
    ensures
        r == verify_outcome(argon2_verdict(plaintext@, hash@)),
{
    match argon2_verify(plaintext, hash) {
        Some(accepted) => Ok(accepted),
        None => Err(PasswordError::MalformedHash),
    }
}

} // verus!
