//! Password-hash verification and creation.
//!
//! The argon2, bcrypt and scrypt computations are performed by their
//! respective crates; each result is named by an uninterpreted spec function,
//! since the digest itself depends on the password and the hash string alone.

use vstd::prelude::*;

use argon2::Argon2;
use argon2::PasswordHasher;
use argon2::PasswordVerifier;
use scrypt::Scrypt;

verus! {

/// Whether argon2 verification of `password` against the PHC string `hash`
/// succeeds; a hash string that does not parse never verifies.
pub uninterp spec fn argon2_verifies(password: Seq<char>, hash: Seq<char>) -> bool;

/// Whether bcrypt verification of `password` against a native `$2*$`-format
/// hash string succeeds; a hash string that does not parse never verifies.
pub uninterp spec fn bcrypt_verifies(password: Seq<char>, hash: Seq<char>) -> bool;

/// Whether scrypt verification of `password` against the PHC string `hash`
/// succeeds; a hash string that does not parse never verifies.
pub uninterp spec fn scrypt_verifies(password: Seq<char>, hash: Seq<char>) -> bool;

/// Relies on `Argon2::verify_password` (argon2): parses the PHC string and
/// recomputes the digest; the outcome is a function of password and hash
/// alone. Any parse failure or mismatch is `false`.
#[verifier::external_body]
pub fn verify_argon2(password: &str, hash: &str) -> (r: bool)
    ensures
        r == argon2_verifies(password@, hash@),
{
    Argon2::default().verify_password(password.as_bytes(), hash).is_ok()
}

/// Relies on `bcrypt::verify`: recomputes the bcrypt digest under the cost
/// and salt encoded in the hash string; errors are reported as `false`.
#[verifier::external_body]
pub fn verify_bcrypt(password: &str, hash: &str) -> (r: bool)
    ensures
        r == bcrypt_verifies(password@, hash@),
{
    bcrypt::verify(password, hash).unwrap_or(false)
}

/// Relies on `Scrypt::verify_password` (scrypt): parses the PHC string and
/// recomputes the digest; the outcome is a function of password and hash
/// alone. Any parse failure or mismatch is `false`.
#[verifier::external_body]
pub fn verify_scrypt(password: &str, hash: &str) -> (r: bool)
    ensures
        r == scrypt_verifies(password@, hash@),
{
    match scrypt::phc::PasswordHash::new(hash) {
        Ok(parsed) => Scrypt::new().verify_password(password.as_bytes(), &parsed).is_ok(),
        Err(_) => false,
    }
}

/// Relies on `Argon2::hash_password` (argon2): hashes under a fresh random
/// salt. The salt is random, so nothing is said about the string itself
/// beyond that verification of the same password against it succeeds.
#[verifier::external_body]
pub fn hash_argon2(password: &str) -> (r: Option<String>)
    ensures
        r is Some ==> argon2_verifies(password@, r.unwrap()@),
{
    Argon2::default().hash_password(password.as_bytes()).map(|h| h.to_string()).ok()
}

/// Relies on `bcrypt::hash` with the default cost: hashes under a fresh
/// random salt; verification of the same password against the result
/// succeeds.
#[verifier::external_body]
pub fn hash_bcrypt(password: &str) -> (r: Option<String>)
    ensures
        r is Some ==> bcrypt_verifies(password@, r.unwrap()@),
{
    bcrypt::hash(password, bcrypt::DEFAULT_COST).ok()
}

/// Relies on `Scrypt::hash_password` (scrypt): hashes under a fresh random
/// salt and returns the PHC string together with the salt it encodes;
/// verification of the same password against the returned string succeeds.
#[verifier::external_body]
pub fn hash_scrypt(password: &str) -> (r: Option<(String, String)>)
    ensures
        r is Some ==> scrypt_verifies(password@, r.unwrap().0@),
{
    match Scrypt::new().hash_password(password.as_bytes()) {
        Ok(h) => {
            let salt = match &h.salt {
                Some(s) => s.to_string(),
                None => String::new(),
            };
            Some((h.to_string(), salt))
        }
        Err(_) => None,
    }
}

} // verus!
