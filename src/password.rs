use argon2::password_hash::{PasswordHasher, PasswordVerifier};
use vstd::prelude::*;

verus! {

/// Whether `stored` is a PHC string that argon2's parser accepts.
pub uninterp spec fn phc_well_formed(stored: Seq<char>) -> bool;

/// Whether argon2, rehashing `password` with the algorithm, parameters and salt
/// found in the PHC string `stored`, reproduces the digest stored there.
pub uninterp spec fn argon2_accepts(password: Seq<char>, stored: Seq<char>) -> bool;

/// The hasher could not produce or read a password hash.
#[derive(Debug, Clone, Copy, PartialEq, Eq, Structural)]
pub enum HashingFailed {
    /// Producing the hash failed (an encoding or parameter error).
    Hashing,
    /// A stored hash could not be parsed.
    MalformedStored,
}

/// `stored` opens as an argon2id (version 19) PHC string does.
pub open spec fn is_argon2id_phc(stored: Seq<char>) -> bool {
    stored.len() >= 15 && stored.take(15) == "$argon2id$v=19$"@
}

/// The password is short enough for argon2, which takes at most `u32::MAX`
/// bytes; a character is at most four bytes.
pub open spec fn hashable(password: Seq<char>) -> bool {
    4 * password.len() <= u32::MAX
}

/// `stored` is a hash of `password`: a readable argon2id PHC string under
/// which the password verifies.
pub open spec fn is_hash_of(password: Seq<char>, stored: Seq<char>) -> bool {
    is_argon2id_phc(stored) && phc_well_formed(stored) && argon2_accepts(password, stored)
}

/// What checking `password` against `stored` yields: a verdict when `stored`
/// is readable, an error when it is not.
pub open spec fn verification_of(password: Seq<char>, stored: Seq<char>) -> Result<bool, HashingFailed> {
    if phc_well_formed(stored) {
        Ok(argon2_accepts(password, stored))
    } else {
        Err(HashingFailed::MalformedStored)
    }
}

/// Relies on `argon2::Argon2::hash_password` (default Argon2id, version 19
/// parameters) with a salt from `SaltString::generate(&mut OsRng)`: it fails
/// only for a password over `u32::MAX` bytes, and the PHC string it returns
/// starts `$argon2id$v=19$`, parses again and verifies the password it was
/// made from.
#[verifier::external_body]
fn argon2_hash(password: &str) -> (r: Option<String>)
    ensures
        hashable(password@) ==> r is Some,
        r matches Some(h) ==> is_argon2id_phc(h@) && phc_well_formed(h@) && argon2_accepts(
            password@,
            h@,
        ),
{
    let salt = argon2::password_hash::SaltString::generate(&mut argon2::password_hash::rand_core::OsRng);
    argon2::Argon2::default().hash_password(password.as_bytes(), &salt).ok().map(|h| h.to_string())
}

/// Relies on `argon2::PasswordHash::new` to parse `stored`, and on
/// `PasswordVerifier::verify_password` of `argon2::Argon2` to check the
/// password against it.
#[verifier::external_body]
fn argon2_verify(password: &str, stored: &str) -> (r: Option<bool>)
    ensures
        r.is_some() == phc_well_formed(stored@),
        r matches Some(b) ==> b == argon2_accepts(password@, stored@),
{
    let parsed = argon2::PasswordHash::new(stored).ok()?;
    Some(argon2::Argon2::default().verify_password(password.as_bytes(), &parsed).is_ok())
}

/// Hashes a password with a fresh random salt. Every hash it returns verifies
/// the password it was made from; it fails only for a password too long for
/// argon2.
pub fn hash_password(password: &str) -> (r: Result<String, HashingFailed>)
    ensures
        hashable(password@) ==> r is Ok,
        r matches Ok(h) ==> is_hash_of(password@, h@),
        r matches Err(e) ==> e == HashingFailed::Hashing,
{
    match argon2_hash(password) {
        Some(h) => Ok(h),
        None => Err(HashingFailed::Hashing),
    }
}

/// Checks a password against a stored hash. A mismatch is `Ok(false)`; only a
/// stored hash that cannot be read is an error.
pub fn verify_password(password: &str, stored: &str) -> (r: Result<bool, HashingFailed>)
    ensures
        r == verification_of(password@, stored@),
{
    match argon2_verify(password, stored) {
        Some(b) => Ok(b),
        None => Err(HashingFailed::MalformedStored),
    }
}

/// A password verifies against any hash that was made from it.
pub proof fn lemma_hash_verifies(password: Seq<char>, stored: Seq<char>)
    requires
        is_hash_of(password, stored),
    ensures
        verification_of(password, stored) == Ok::<bool, HashingFailed>(true),
{
}

} // verus!
