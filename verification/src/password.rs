use vstd::prelude::*;
use vstd::string::StringSliceAdditionalSpecFns;
use vstd::utf8::encode_utf8;
use crate::error::ApiError;
use crate::text::digit_char;

verus! {

/// The work factor used for stored password hashes.
pub const BCRYPT_COST: u32 = 12;

/// What `bcrypt::verify` gives for a password's bytes and a stored hash: `None` when the
/// hash cannot be read.
pub uninterp spec fn bcrypt_check(password: Seq<u8>, hash: Seq<char>) -> Option<bool>;

/// A bcrypt cost written with two digits, as a hash records it.
pub open spec fn cost_digits(cost: u32) -> Seq<char> {
    seq![digit_char((cost / 10) as nat), digit_char((cost % 10) as nat)]
}

/// The prefix of a hash in bcrypt's `2b` format made with `cost`: `$2b$`, the
/// cost in two digits, `$`.
pub open spec fn bcrypt_prefix(cost: u32) -> Seq<char> {
    "$2b$"@ + cost_digits(cost) + "$"@
}

/// Calls `bcrypt::hash` with the given cost. With a fresh random salt it hashes the password
/// and writes the result in the `2b` format: `$2b$`, the cost in two digits, `$`, then the
/// salt (22 characters) and the hash (31 characters). `bcrypt::verify` of the same password
/// against the produced hash re-derives it with the stored salt and cost and reports a match.
/// It fails only when the operating system's random source fails, so success is not promised.
#[verifier::external_body]
fn bcrypt_hash(password: &str, cost: u32) -> (r: Option<String>)
    requires
        4 <= cost <= 31,
    ensures
        r matches Some(h) ==> bcrypt_check(password.spec_bytes(), h@) == Some(true),
        r matches Some(h) ==> h@.len() == 60 && h@.subrange(0, 7) == bcrypt_prefix(cost),
{
    bcrypt::hash(password, cost).ok()
}

/// Calls `bcrypt::verify`; the result is the named one.
#[verifier::external_body]
fn bcrypt_verify(password: &str, hash: &str) -> (r: Option<bool>)
    ensures
        r == bcrypt_check(password.spec_bytes(), hash@),
{
    bcrypt::verify(password, hash).ok()
}

/// Whether `password` matches the stored `hash`.
pub open spec fn password_matches(password: Seq<char>, hash: Seq<char>) -> bool {
    bcrypt_check(encode_utf8(password), hash) == Some(true)
}

/// Hashes a password for storage, at cost 12. A hash it returns always verifies against the
/// password.
pub fn hash(password: &str) -> (r: Result<String, ApiError>)
    ensures
        r matches Ok(h) ==> password_matches(password@, h@),
        r matches Ok(h) ==> h@.len() == 60 && h@.subrange(0, 7) == "$2b$12$"@,
        r matches Err(e) ==> e.is_internal("bcrypt hash"@),
{
    let r = bcrypt_hash(password, BCRYPT_COST);
    proof {
        reveal_strlit("$2b$");
        reveal_strlit("$");
        reveal_strlit("$2b$12$");
        assert(bcrypt_prefix(BCRYPT_COST) =~= "$2b$12$"@);
    }
    match r {
        Some(h) => Ok(h),
        None => Err(ApiError::internal("bcrypt hash")),
    }
}

/// Whether `password` matches the stored `hash`; an unreadable hash matches nothing.
pub fn verify(password: &str, hash: &str) -> (r: bool)
    ensures
        r == password_matches(password@, hash@),
{
    match bcrypt_verify(password, hash) {
        Some(b) => b,
        None => false,
    }
}

} // verus!
