use vstd::prelude::*;

verus! {

/// Whether bcrypt accepts `password` against the stored `hash`.
pub uninterp spec fn bcrypt_accepts(password: Seq<char>, hash: Seq<char>) -> bool;

/// The error type of `bcrypt`, carried through as it is.
#[verifier::external_type_specification]
#[verifier::external_body]
pub struct ExBcryptError(bcrypt::BcryptError);

/// The cost factor with which passwords are hashed.
pub const HASH_COST: u32 = 10;

/// Relies on `bcrypt::hash`: a salted hash of the password, which
/// `bcrypt::verify` accepts for that same password. It fails only on a cost
/// outside `4..=31` or when the system gives no randomness for the salt.
#[verifier::external_body]
fn bcrypt_hash(password: &str, cost: u32) -> (r: Result<String, bcrypt::BcryptError>)
    requires
        4 <= cost <= 31,
    ensures
        r.is_ok() ==> bcrypt_accepts(password@, r.unwrap()@),
{
    bcrypt::hash(password, cost)
}

/// Relies on `bcrypt::verify`: whether the password matches the hash. A hash
/// that bcrypt cannot read matches no password.
#[verifier::external_body]
fn bcrypt_verify(password: &str, hash: &str) -> (r: bool)
    ensures
        r == bcrypt_accepts(password@, hash@),
{
    bcrypt::verify(password, hash).unwrap_or(false)
}

/// Hashes a password for storage; `None` when hashing failed.
pub fn hash_password(password: &str) -> (r: Option<String>)
    ensures
        r.is_some() ==> bcrypt_accepts(password@, r.unwrap()@),
{
    match bcrypt_hash(password, HASH_COST) {
        Ok(h) => Some(h),
        Err(_) => None,
    }
}

/// Whether the password matches a stored hash.
pub fn password_matches(password: &str, hash: &str) -> (r: bool)
    ensures
        r == bcrypt_accepts(password@, hash@),
{
    bcrypt_verify(password, hash)
}

} // verus!
