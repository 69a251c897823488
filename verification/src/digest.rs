use vstd::prelude::*;
use crate::text::{hex_encode, hex_lower};
use vstd::string::StringSliceAdditionalSpecFns;

verus! {

/// The SHA-256 digest of a byte string, as `sha2::Sha256` computes it.
pub uninterp spec fn sha256(data: Seq<u8>) -> Seq<u8>;

/// The HMAC-SHA256 tag of `msg` under `key`, as `hmac::Hmac<sha2::Sha256>` computes it.
pub uninterp spec fn hmac_sha256(key: Seq<u8>, msg: Seq<u8>) -> Seq<u8>;

/// Calls `sha2::Sha256::digest`; the result is the named digest of `data`, 32 bytes long
/// (the output size of `Sha256`).
#[verifier::external_body]
pub(crate) fn sha256_digest(data: &[u8]) -> (r: Vec<u8>)
    ensures
        r@ == sha256(data@),
        r@.len() == 32,
{
    <sha2::Sha256 as sha2::Digest>::digest(data).to_vec()
}

/// Calls `Hmac::<Sha256>::new_from_slice`, `update` and `finalize`; the result is the named
/// tag, 32 bytes long. `new_from_slice` accepts a key of any length for `Hmac`.
#[verifier::external_body]
pub(crate) fn hmac_sha256_tag(key: &[u8], msg: &[u8]) -> (r: Vec<u8>)
    ensures
        r@ == hmac_sha256(key@, msg@),
        r@.len() == 32,
{
    let mut mac = <hmac::Hmac<sha2::Sha256> as hmac::Mac>::new_from_slice(key).expect("any key length");
    hmac::Mac::update(&mut mac, msg);
    hmac::Mac::finalize(mac).into_bytes().to_vec()
}

/// A SHA-256 computation in progress: a `sha2::Sha256` hasher. Verus refuses to
/// declare `sha2::Sha256` itself (it is an alias of a generic wrapper), so the
/// hasher is held here, out of Verus's sight, and read only through `fed`.
#[verifier::external_body]
pub struct Sha256Stream {
    hasher: sha2::Sha256,
}

/// The bytes fed to a SHA-256 computation so far.
pub uninterp spec fn fed(h: Sha256Stream) -> Seq<u8>;

/// Calls `Sha256::new`: nothing fed yet.
#[verifier::external_body]
pub(crate) fn sha256_start() -> (r: Sha256Stream)
    ensures
        fed(r) == Seq::<u8>::empty(),
{
    Sha256Stream { hasher: <sha2::Sha256 as sha2::Digest>::new() }
}

/// Calls `Digest::update`: the chunk is fed after what came before.
#[verifier::external_body]
pub(crate) fn sha256_feed(h: &mut Sha256Stream, chunk: &[u8])
    ensures
        fed(*final(h)) == fed(*old(h)) + chunk@,
{
    sha2::Digest::update(&mut h.hasher, chunk);
}

/// Calls `Digest::finalize`: the digest of everything fed, which is the digest
/// `Sha256::digest` gives of those bytes at once, 32 bytes long.
#[verifier::external_body]
pub(crate) fn sha256_finish(h: Sha256Stream) -> (r: Vec<u8>)
    ensures
        r@ == sha256(fed(h)),
        r@.len() == 32,
{
    sha2::Digest::finalize(h.hasher).to_vec()
}

/// Lowercase hex of the SHA-256 digest of `data`.
pub open spec fn hex_sha256(data: Seq<u8>) -> Seq<char> {
    hex_lower(sha256(data))
}

/// The lowercase hexadecimal SHA-256 digest of `bytes`.
pub fn hex_digest(bytes: &[u8]) -> (r: String)
    ensures
        r@ == hex_sha256(bytes@),
{
    let d = sha256_digest(bytes);
    hex_encode(&d)
}

/// The stored form of a secret: the hex SHA-256 digest of its UTF-8 bytes.
pub fn hash_secret(secret: &str) -> (r: String)
    ensures
        r@ == hex_sha256(secret.spec_bytes()),
{
    hex_digest(secret.as_bytes())
}

/// The webhook signature of `body` under `secret`: lowercase hex of its HMAC-SHA256 tag.
pub fn sign_payload(secret: &str, body: &[u8]) -> (r: String)
    ensures
        r@ == hex_lower(hmac_sha256(secret.spec_bytes(), body@)),
{
    let tag = hmac_sha256_tag(secret.as_bytes(), body);
    hex_encode(&tag)
}

} // verus!
