use vstd::prelude::*;
use vstd::string::StringSliceAdditionalSpecFns;
use crate::error::ApiError;
use crate::ids::{all_alnum, random_string};
use crate::text::{chars_of, string_of, trim, trim_exec, concat2, slice_vec};

verus! {

/// The request to create an API key.
pub struct CreateRequest {
    pub project_id: String,
    pub name: String,
    pub mode: KeyMode,
}

/// Whether a key is for live or test traffic.
#[derive(Debug)]
pub enum KeyMode {
    Live,
    Test,
}

/// An API key as listed to its owner.
pub struct ApiKeyView {
    pub id: String,
    pub project_id: String,
    pub name: String,
    pub prefix: String,
    pub last_used_at: Option<String>,
    pub created_at: String,
    pub revoked_at: Option<String>,
}

/// A newly created API key together with its secret, shown once.
pub struct CreatedApiKeyView {
    pub key: ApiKeyView,
    pub secret: String,
}

/// The prefix that marks a key's mode.
pub open spec fn mode_prefix(mode: KeyMode) -> Seq<char> {
    match mode {
        KeyMode::Live => "fb_live_"@,
        KeyMode::Test => "fb_test_"@,
    }
}

/// A key name: trimmed, and it must not be empty.
pub fn validate_name(name: &str) -> (r: Result<String, ApiError>)
    ensures
        r matches Ok(s) ==> s@ == trim(name@) && s@.len() > 0,
        r matches Err(e) ==> trim(name@).len() == 0 && e.is_validation("API key name is required"@),
{
    let t = trim_exec(&chars_of(name));
    if t.len() == 0 {
        return Err(ApiError::validation("API key name is required"));
    }
    Ok(string_of(&t))
}

/// A fresh API secret: the mode's prefix followed by 40 random ASCII letters and digits.
pub fn generate_key(mode: &KeyMode) -> (r: String)
    ensures
        r@.len() == 48,
        r@.subrange(0, 8) == mode_prefix(*mode),
        all_alnum(r@.subrange(8, 48)),
{
    let prefix = match mode {
        KeyMode::Live => "fb_live_",
        KeyMode::Test => "fb_test_",
    };
    let suffix = random_string(40);
    let r = concat2(prefix, suffix.as_str());
    proof {
        reveal_strlit("fb_live_");
        reveal_strlit("fb_test_");
        assert(r@.subrange(0, 8) == prefix@);
        assert(r@.subrange(8, 48) == suffix@);
    }
    r
}

/// The displayable prefix of a secret: its first sixteen characters.
pub fn key_prefix(secret: &str) -> (r: String)
    ensures
        r@ == secret@.take(if secret@.len() < 16 { secret@.len() as int } else { 16 }),
{
    let c = chars_of(secret);
    let n = if c.len() < 16 { c.len() } else { 16 };
    string_of(&slice_vec(&c, 0, n))
}

/// The stored hash of an API secret: hex SHA-256 of its bytes.
pub fn hash_key(key: &str) -> (r: String)
    ensures
        r@ == crate::digest::hex_sha256(key.spec_bytes()),
{
    crate::digest::hash_secret(key)
}

/// A key as it is issued: its checked name, the secret shown once, the prefix
/// kept for display, and the hash kept for authentication.
pub struct IssuedKey {
    pub name: String,
    pub secret: String,
    pub prefix: String,
    pub hash: String,
}

/// Issues a key for a create request: the name checked, a fresh secret for
/// the mode, its first sixteen characters as the prefix, and the hex SHA-256
/// of its bytes as the stored hash, which is what authentication computes
/// from a presented secret.
pub fn issue_key(req: &CreateRequest) -> (r: Result<IssuedKey, ApiError>)
    ensures
        trim(req.name@).len() == 0 ==> (r matches Err(e) && e.is_validation("API key name is required"@)),
        trim(req.name@).len() > 0 ==> (r matches Ok(k) && {
            &&& k.name@ == trim(req.name@)
            &&& k.secret@.len() == 48
            &&& k.secret@.take(8) == mode_prefix(req.mode)
            &&& all_alnum(k.secret@.skip(8))
            &&& k.prefix@ == k.secret@.take(16)
            &&& k.hash@ == crate::digest::hex_sha256(vstd::utf8::encode_utf8(k.secret@))
        }),
{
    let name = validate_name(req.name.as_str())?;
    let secret = generate_key(&req.mode);
    let prefix = key_prefix(secret.as_str());
    let hash = hash_key(secret.as_str());
    assert(secret@.take(8) == secret@.subrange(0, 8));
    assert(secret@.skip(8) == secret@.subrange(8, 48));
    Ok(IssuedKey { name, secret, prefix, hash })
}

} // verus!
