//! One-way password hashing with an adaptive, salted hash (bcrypt).
use vstd::prelude::*;

verus! {

/// What bcrypt's verification says of `password` against the hash text
/// `hash`: `Some(true)` or `Some(false)`, or `None` where it cannot read the
/// hash text.
pub uninterp spec fn bcrypt_verdict(password: Seq<char>, hash: Seq<char>) -> Option<bool>;

/// Relies on `bcrypt::verify`: its verdict depends on the password and the hash
/// text alone, and a hash text that does not split into prefix, cost and
/// salt-and-digest (the empty text among them) is an error.
#[verifier::external_body]
fn bcrypt_verify(password: &str, hash: &str) -> (r: Option<bool>)
    ensures
        r == bcrypt_verdict(password@, hash@),
        hash@.len() == 0 ==> r is None,
{
    match bcrypt::verify(password, hash) {
        Ok(b) => Some(b),
        Err(_) => None,
    }
}

/// Relies on `bcrypt::hash`: the salt is drawn at random, so only what holds of
/// every outcome is stated: `bcrypt::verify` accepts the password against the
/// hash text returned, and that text is `$2b$`, two cost digits, `$`, and 53
/// characters of salt and digest, 60 characters in all.
#[verifier::external_body]
fn bcrypt_hash(password: &str, cost: u32) -> (r: Option<String>)
    ensures
        r matches Some(h) ==> bcrypt_verdict(password@, h@) == Some(true) && h@.len() == 60,
{
    bcrypt::hash(password, cost).ok()
}

/// The work factor of every hash this library makes.
pub const HASH_COST: u32 = 10;

/// The password matches the stored hash text.
pub open spec fn password_accepted(password: Seq<char>, hash: Seq<char>) -> bool {
    bcrypt_verdict(password, hash) == Some(true)
}

/// Hashes `password` with a fresh salt. Whatever hash comes back accepts the
/// password and is 60 characters long; `None` where hashing failed.
pub fn hash_password(password: &str) -> (r: Option<String>)
    ensures
        r matches Some(h) ==> password_accepted(password@, h@) && h@.len() == 60,
{
    bcrypt_hash(password, HASH_COST)
}

/// Checks `password` against a stored hash text. An unreadable or empty hash
/// text never matches.
pub fn verify_password(password: &str, hash: &str) -> (r: bool)
    ensures
        r == password_accepted(password@, hash@),
        hash@.len() == 0 ==> !r,
{
    match bcrypt_verify(password, hash) {
        Some(b) => b,
        None => false,
    }
}

} // verus!
