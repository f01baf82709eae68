//! Credential hasher: salted, memory-hard password digests.
//!
//! A digest is one self-describing string that carries the algorithm, its
//! parameters, the salt and the derived output. Checking a password against a
//! digest fails closed: whatever is wrong with the digest, the answer is "no".

use crate::error::AppError;
use argon2::password_hash::rand_core::OsRng;
use argon2::password_hash::{PasswordHash, PasswordHasher, PasswordVerifier, SaltString};
use argon2::Argon2;
use vstd::prelude::*;

verus! {

/// The digest that Argon2 with its default parameters derives from a password
/// under a salt given in its text form, or nothing where the salt is not
/// acceptable or the engine fails.
pub uninterp spec fn argon2_digest(password: Seq<char>, salt: Seq<char>) -> Option<Seq<char>>;

/// Whether Argon2 accepts a password for a digest: the digest parses, and the
/// output recomputed under its embedded parameters and salt equals the one it
/// carries.
pub uninterp spec fn argon2_accepts(password: Seq<char>, digest: Seq<char>) -> bool;

/// Calls `SaltString::generate` with the operating system's random source and
/// hands back the salt's text. Nothing is claimed of the text: it differs from
/// call to call.
#[verifier::external_body]
pub(crate) fn draw_salt() -> (salt: String) {
    SaltString::generate(&mut OsRng).as_str().to_owned()
}

/// Reads the salt with `SaltString::from_b64`, calls
/// `Argon2::default().hash_password` and hands back the digest's text.
/// Trusted: the text depends on password and salt alone, and a digest that
/// comes out is one that the same password is accepted for.
#[verifier::external_body]
fn derive_digest(password: &str, salt: &str) -> (r: Option<String>)
    ensures
        match r {
            Some(digest) => argon2_digest(password@, salt@) == Some(digest@) && argon2_accepts(
                password@,
                digest@,
            ),
            None => argon2_digest(password@, salt@) is None,
        },
{
    let salt = SaltString::from_b64(salt).ok()?;
    let hash = Argon2::default().hash_password(password.as_bytes(), &salt).ok()?;
    Some(hash.to_string())
}

/// Reads the digest with `PasswordHash::new` and calls
/// `Argon2::default().verify_password`. Trusted: the answer depends on
/// password and digest alone; a digest that does not parse gives `false`.
#[verifier::external_body]
fn check_digest(password: &str, digest: &str) -> (accepted: bool)
    ensures
        accepted == argon2_accepts(password@, digest@),
{
    match PasswordHash::new(digest) {
        Ok(parsed) => Argon2::default().verify_password(password.as_bytes(), &parsed).is_ok(),
        Err(_) => false,
    }
}

/// What hashing under a given salt returns.
pub open spec fn spec_hash_with_salt(password: Seq<char>, salt: Seq<char>) -> Result<
    Seq<char>,
    AppError,
> {
    match argon2_digest(password, salt) {
        Some(digest) => Ok(digest),
        None => Err(AppError::Internal),
    }
}

/// Whether `digest` is what hashing `password` gives under some salt.
pub open spec fn is_digest_of(password: Seq<char>, digest: Seq<char>) -> bool {
    exists|salt: Seq<char>| #[trigger] argon2_digest(password, salt) == Some(digest)
}

/// Derives the digest of a password under the given salt.
///
/// The same password and salt always give the same digest, and the password
/// verifies against it. A salt the engine does not take is an internal error.
pub fn hash_with_salt(password: &str, salt: &str) -> (r: Result<String, AppError>)
    ensures
        match r {
            Ok(digest) => spec_hash_with_salt(password@, salt@) == Ok::<Seq<char>, AppError>(
                digest@,
            ) && argon2_accepts(password@, digest@),
            Err(e) => e == AppError::Internal && spec_hash_with_salt(password@, salt@) is Err,
        },
{
    match derive_digest(password, salt) {
        Some(digest) => Ok(digest),
        None => Err(AppError::Internal),
    }
}

/// Derives a digest of a password under a fresh random salt.
///
/// Whatever salt was drawn, the password verifies against the digest that
/// comes out. The answer is an internal error only where the engine gives no
/// digest under the salt drawn.
pub fn hash(password: &str) -> (r: Result<String, AppError>)
    ensures
        match r {
            Ok(digest) => is_digest_of(password@, digest@) && argon2_accepts(password@, digest@),
            Err(e) => e == AppError::Internal && exists|salt: Seq<char>|
                (#[trigger] argon2_digest(password@, salt)) is None,
        },
{
    let salt: String = draw_salt();
    let r = hash_with_salt(password, salt.as_str());
    proof {
        if r is Err {
            assert(argon2_digest(password@, salt@) is None);
        }
    }
    r
}

/// Checks a password against a digest. A malformed digest, unsupported
/// parameters and an engine failure all give `false`.
pub fn verify(password: &str, digest: &str) -> (accepted: bool)
    ensures
        accepted == argon2_accepts(password@, digest@),
{
    check_digest(password, digest)
}

} // verus!
