//! Stored password hashes.
use vstd::prelude::*;

verus! {

/// Whether `password` matches the bcrypt hash `hash`; `None` when `hash` is
/// not a well-formed bcrypt hash.
pub uninterp spec fn bcrypt_matches(password: Seq<char>, hash: Seq<char>) -> Option<bool>;

/// Relies on `bcrypt::hash`: a hash of `password` with a fresh random salt,
/// in the `$2b$` format, which `bcrypt::verify` accepts for that password;
/// it fails for a cost outside 4 to 31 and when no randomness can be had.
#[verifier::external_body]
fn bcrypt_hash(password: &str, cost: u32) -> (r: Option<String>)
    ensures
        !(4 <= cost <= 31) ==> r is None,
        r matches Some(h) ==> h@.take(4) == "$2b$"@,
        r matches Some(h) ==> bcrypt_matches(password@, h@) == Some(true),
{
    bcrypt::hash(password, cost).ok()
}

/// Relies on `bcrypt::verify`: whether `password` hashes to `hash` with the
/// salt and cost written in it.
#[verifier::external_body]
fn bcrypt_verify(password: &str, hash: &str) -> (r: Option<bool>)
    ensures
        r == bcrypt_matches(password@, hash@),
{
    bcrypt::verify(password, hash).ok()
}

/// The cost with which new hashes are made.
pub const DEFAULT_COST: u32 = 12;

/// A bcrypt hash of a password, as stored.
#[derive(Debug)]
pub struct Hash(pub String);

impl Hash {
    /// A hash of `password`, which verifies for it; `None` when no random
    /// salt could be had.
    pub fn new(password: &str) -> (r: Option<Hash>)
        ensures
            r matches Some(h) ==> h.0@.take(4) == "$2b$"@,
            r matches Some(h) ==> bcrypt_matches(password@, h.0@) == Some(true),
    {
        match bcrypt_hash(password, DEFAULT_COST) {
            Some(h) => Some(Hash(h)),
            None => None,
        }
    }

    /// Whether `password` is the password that was hashed; `None` when the
    /// stored hash is not well formed.
    pub fn verify(&self, password: &str) -> (r: Option<bool>)
        ensures
            r == bcrypt_matches(password@, self.0@),
    {
        bcrypt_verify(password, self.0.as_str())
    }
}

/// A hash of `password`, which verifies for it.
pub fn hash(password: &str) -> (r: Option<Hash>)
    ensures
        r matches Some(h) ==> h.0@.take(4) == "$2b$"@,
        r matches Some(h) ==> bcrypt_matches(password@, h.0@) == Some(true),
{
    Hash::new(password)
}

} // verus!
