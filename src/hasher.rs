use vstd::prelude::*;

verus! {

#[verifier::external_type_specification]
#[verifier::external_body]
pub struct ExBcryptError(bcrypt::BcryptError);

/// The bcrypt hash text of a password at a cost with a salt.
pub uninterp spec fn bcrypt_hash_of(password: Seq<char>, cost: u32, salt: Seq<u8>) -> Seq<char>;

/// Whether bcrypt accepts a password against a stored hash text.
pub uninterp spec fn bcrypt_accepts(password: Seq<char>, hash: Seq<char>) -> bool;

/// The work factor used for every stored hash.
pub const HASH_COST: u32 = 12;

/// Why a password could not be hashed.
#[derive(Debug, Clone, Copy, PartialEq, Eq, Structural)]
pub enum HashingError {
    /// bcrypt accepts work factors from 4 to 31 only.
    CostNotAllowed,
}

/// Relies on `bcrypt::hash_with_salt` and `HashParts::to_string`: it refuses
/// exactly the costs outside 4..=31, and otherwise writes
/// `$2y$<two-digit cost>$<22 salt chars><31 hash chars>`; `bcrypt::verify`
/// re-hashes with the cost and salt read back from that text, so it accepts
/// the same password.
#[verifier::external_body]
pub(crate) fn bcrypt_hash_with_salt(password: &str, cost: u32, salt: [u8; 16]) -> (r: Result<String, bcrypt::BcryptError>)
    ensures
        (r is Ok) == (4 <= cost <= 31),
        r is Ok ==> r->Ok_0@ == bcrypt_hash_of(password@, cost, salt@),
        r is Ok ==> r->Ok_0@.len() == 60 && r->Ok_0@[0] == '$',
        r is Ok ==> bcrypt_accepts(password@, r->Ok_0@),
{
    match bcrypt::hash_with_salt(password.as_bytes(), cost, salt) {
        Ok(parts) => Ok(parts.to_string()),
        Err(e) => Err(e),
    }
}

/// Relies on `bcrypt::verify`: it reads cost and salt from the hash, hashes
/// the password again with them and compares in constant time; a hash it
/// cannot read is counted as a refusal here.
#[verifier::external_body]
pub(crate) fn bcrypt_verify(password: &str, hash: &str) -> (r: bool)
    ensures
        r == bcrypt_accepts(password@, hash@),
        forall|cost: u32, salt: Seq<u8>|
            4 <= cost <= 31 && salt.len() == 16 && hash@ == #[trigger] bcrypt_hash_of(password@, cost, salt)
                ==> r,
{
    match bcrypt::verify(password.as_bytes(), hash) {
        Ok(b) => b,
        Err(_) => false,
    }
}

/// Hashes a password with bcrypt at `cost` with `salt`.
pub fn hash_password(password: &str, cost: u32, salt: [u8; 16]) -> (r: Result<String, HashingError>)
    ensures
        match r {
            Ok(h) => 4 <= cost <= 31 && h@ == bcrypt_hash_of(password@, cost, salt@) && h@.len() == 60
                && h@[0] == '$' && bcrypt_accepts(password@, h@),
            Err(e) => !(4 <= cost <= 31) && e == HashingError::CostNotAllowed,
        },
{
    match bcrypt_hash_with_salt(password, cost, salt) {
        Ok(h) => Ok(h),
        Err(_) => Err(HashingError::CostNotAllowed),
    }
}

/// Checks a password against a stored hash. A hash made from the same
/// password, with any allowed cost and any salt, is always accepted.
pub fn verify_password(password: &str, hash: &str) -> (r: bool)
    ensures
        r == bcrypt_accepts(password@, hash@),
        forall|cost: u32, salt: Seq<u8>|
            4 <= cost <= 31 && salt.len() == 16 && hash@ == #[trigger] bcrypt_hash_of(password@, cost, salt)
                ==> r,
{
    bcrypt_verify(password, hash)
}

} // verus!
