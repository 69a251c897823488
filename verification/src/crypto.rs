use vstd::prelude::*;
use vstd::string::StringSliceAdditionalSpecFns;
use vstd::utf8::{decode_utf8, encode_utf8, valid_utf8};
use crate::digest::{sha256, sha256_digest};
use crate::error::ApiError;

verus! {

broadcast use vstd::utf8::group_utf8_lib;

/// The largest plaintext that AES-GCM in the `aes-gcm` crate accepts (`P_MAX`).
pub open spec fn aes_gcm_max_plaintext() -> int {
    0x10_0000_0000
}

/// The ciphertext with tag that `Aes256Gcm::encrypt` produces for a key, nonce and plaintext.
pub uninterp spec fn aes256gcm_seal(key: Seq<u8>, nonce: Seq<u8>, plaintext: Seq<u8>) -> Seq<u8>;

/// What `Aes256Gcm::decrypt` gives back for a key, nonce and ciphertext: `None` when the
/// ciphertext does not authenticate.
pub uninterp spec fn aes256gcm_open(key: Seq<u8>, nonce: Seq<u8>, ciphertext: Seq<u8>) -> Option<
    Seq<u8>,
>;

/// The text that the `base64` crate's `STANDARD` engine writes for a byte string.
pub uninterp spec fn base64_encode(bytes: Seq<u8>) -> Seq<char>;

/// What the `STANDARD` engine's `decode` gives for some input bytes: the bytes, or the text of
/// the `DecodeError` it reports.
pub uninterp spec fn base64_decode(input: Seq<u8>) -> Result<Seq<u8>, Seq<char>>;

/// The text of the `FromUtf8Error` that `String::from_utf8` reports for bytes that are not
/// well-formed UTF-8.
pub uninterp spec fn utf8_error_text(bytes: Seq<u8>) -> Seq<char>;

/// The text the `aead` crate's `Error` displays as.
pub open spec fn aead_error_text() -> Seq<char> {
    "aead::Error"@
}

/// Draws a fresh 96-bit nonce with `Aes256Gcm::generate_nonce(&mut OsRng)`; the nonce size of
/// `Aes256Gcm` is twelve bytes. Which bytes come out is left open.
#[verifier::external_body]
fn generate_nonce() -> (r: Vec<u8>)
    ensures
        r@.len() == 12,
{
    <aes_gcm::Aes256Gcm as aes_gcm::AeadCore>::generate_nonce(&mut aes_gcm::aead::OsRng).to_vec()
}

/// Calls `Aes256Gcm::new` on the key and `encrypt` with the nonce. The crate refuses a
/// plaintext longer than `P_MAX` and otherwise returns the sealed text followed by the
/// sixteen-byte tag; AEAD decryption of that
/// text with the same key and nonce gives the plaintext back.
#[verifier::external_body]
fn aes_gcm_seal(key: &[u8], nonce: &[u8], plaintext: &[u8]) -> (r: Option<Vec<u8>>)
    requires
        key@.len() == 32,
        nonce@.len() == 12,
    ensures
        r is Some <==> plaintext@.len() <= aes_gcm_max_plaintext(),
        r matches Some(c) ==> c@ == aes256gcm_seal(key@, nonce@, plaintext@),
        r matches Some(c) ==> c@.len() == plaintext@.len() + 16,
        r matches Some(c) ==> aes256gcm_open(key@, nonce@, c@) == Some(plaintext@),
{
    let cipher = <aes_gcm::Aes256Gcm as aes_gcm::KeyInit>::new(aes_gcm::Key::<aes_gcm::Aes256Gcm>::from_slice(key));
    aes_gcm::aead::Aead::encrypt(&cipher, aes_gcm::Nonce::from_slice(nonce), plaintext).ok()
}

/// Calls `Aes256Gcm::new` on the key and `decrypt` with the nonce; the result is the named one.
#[verifier::external_body]
fn aes_gcm_open(key: &[u8], nonce: &[u8], ciphertext: &[u8]) -> (r: Option<Vec<u8>>)
    requires
        key@.len() == 32,
        nonce@.len() == 12,
    ensures
        r is Some <==> aes256gcm_open(key@, nonce@, ciphertext@) is Some,
        r matches Some(p) ==> aes256gcm_open(key@, nonce@, ciphertext@) == Some(p@),
{
    let cipher = <aes_gcm::Aes256Gcm as aes_gcm::KeyInit>::new(aes_gcm::Key::<aes_gcm::Aes256Gcm>::from_slice(key));
    aes_gcm::aead::Aead::decrypt(&cipher, aes_gcm::Nonce::from_slice(nonce), ciphertext).ok()
}

/// Calls `STANDARD.encode`; the result is the named text, and `STANDARD.decode` of its bytes
/// gives the input back.
#[verifier::external_body]
fn b64_encode(bytes: &[u8]) -> (r: String)
    requires
        bytes@.len() <= usize::MAX / 2,
    ensures
        r@ == base64_encode(bytes@),
        base64_decode(encode_utf8(r@)) is Ok,
        base64_decode(encode_utf8(r@))->Ok_0 == bytes@,
{
    base64::Engine::encode(&base64::engine::general_purpose::STANDARD, bytes)
}

/// Calls `STANDARD.decode`; the result, or the error's text, is the named one.
#[verifier::external_body]
fn b64_decode(input: &[u8]) -> (r: Result<Vec<u8>, String>)
    ensures
        r is Ok <==> base64_decode(input@) is Ok,
        r matches Ok(b) ==> (base64_decode(input@) matches Ok(d) && d == b@),
        r matches Err(m) ==> (base64_decode(input@) matches Err(t) && t == m@),
{
    base64::Engine::decode(&base64::engine::general_purpose::STANDARD, input).map_err(|e| e.to_string())
}

/// Calls `String::from_utf8`, which accepts exactly the well-formed UTF-8 byte strings; the
/// error's text is the named one.
#[verifier::external_body]
pub(crate) fn utf8_to_string(bytes: Vec<u8>) -> (r: Result<String, String>)
    ensures
        r is Ok <==> valid_utf8(bytes@),
        r matches Ok(s) ==> s@ == decode_utf8(bytes@),
        r matches Err(m) ==> m@ == utf8_error_text(bytes@),
{
    String::from_utf8(bytes).map_err(|e| e.to_string())
}

/// The AES-256 key derived from a configured key string: the SHA-256 digest of its bytes.
pub open spec fn derived_key(key: Seq<char>) -> Seq<u8> {
    sha256(encode_utf8(key))
}

/// What `decrypt` yields for a payload's bytes and a key: the plaintext, or the message of
/// the internal error.
pub open spec fn spec_decrypt(payload: Seq<u8>, key: Seq<char>) -> Result<Seq<char>, Seq<char>> {
    match base64_decode(payload) {
        Err(m) => Err("decrypt base64: "@ + m),
        Ok(bytes) => if bytes.len() < 12 {
            Err("decrypt: short payload"@)
        } else {
            match aes256gcm_open(derived_key(key), bytes.take(12), bytes.skip(12)) {
                None => Err("decrypt: "@ + aead_error_text()),
                Some(plain) => if valid_utf8(plain) {
                    Ok(decode_utf8(plain))
                } else {
                    Err("decrypt utf8: "@ + utf8_error_text(plain))
                },
            }
        },
    }
}

/// The message of a refused encryption: the cipher's error for a plaintext longer than it
/// takes, else (on a small address space) a plaintext whose encoding would not fit.
pub open spec fn encrypt_fault(len: nat) -> Seq<char> {
    if len > aes_gcm_max_plaintext() {
        "encrypt: "@ + aead_error_text()
    } else {
        "encrypt: plaintext too large"@
    }
}

/// Whether a message is one that a refused encryption gives.
pub open spec fn is_encrypt_fault(m: Seq<char>) -> bool {
    m == "encrypt: "@ + aead_error_text() || m == "encrypt: plaintext too large"@
}

/// The stored text for a plaintext sealed under a key with a given nonce.
pub open spec fn sealed_text(plaintext: Seq<char>, key: Seq<char>, nonce: Seq<u8>) -> Seq<char> {
    base64_encode(nonce + aes256gcm_seal(derived_key(key), nonce, encode_utf8(plaintext)))
}

/// Encrypts a secret for storage: base64 of a fresh nonce followed by the AES-256-GCM
/// ciphertext under the derived key. Decrypting the result with the same key gives the
/// plaintext back. A plaintext too large for the cipher (or, on a small address space, for
/// the encoded result) is refused.
pub fn encrypt(plaintext: &str, key: &str) -> (r: Result<String, ApiError>)
    ensures
        r is Ok <==> plaintext.spec_bytes().len() <= aes_gcm_max_plaintext()
            && plaintext.spec_bytes().len() <= usize::MAX / 4,
        r matches Err(e) ==> e.is_internal(encrypt_fault(plaintext.spec_bytes().len())),
        r matches Ok(s) ==> exists|nonce: Seq<u8>| nonce.len() == 12 && s@ == sealed_text(plaintext@, key@, nonce),
        r matches Ok(s) ==> spec_decrypt(encode_utf8(s@), key@) == Ok::<Seq<char>, Seq<char>>(plaintext@),
{
    let pt = plaintext.as_bytes();
    proof {
        reveal_strlit("aead::Error");
        reveal_strlit("encrypt: ");
        reveal_strlit("encrypt: aead::Error");
    }
    let derived = sha256_digest(key.as_bytes());
    let nonce = generate_nonce();
    match aes_gcm_seal(&derived, &nonce, pt) {
        None => {
            assert(encrypt_fault(pt@.len()) == "encrypt: aead::Error"@);
            Err(ApiError::internal("encrypt: aead::Error"))
        },
        Some(_) if pt.len() > usize::MAX / 4 => Err(ApiError::internal("encrypt: plaintext too large")),
        Some(ct) => {
            let mut out = nonce.clone();
            let mut ct2 = ct;
            let ghost ctv = ct2@;
            out.append(&mut ct2);
            assert(out@ == nonce@ + ctv);
            let s = b64_encode(&out);
            proof {
                assert(out@.take(12) == nonce@);
                assert(out@.skip(12) == ctv);
                assert(s@ == sealed_text(plaintext@, key@, nonce@));
            }
            Ok(s)
        },
    }
}

/// Decrypts a stored secret; see `spec_decrypt` for every outcome.
pub fn decrypt(payload: &str, key: &str) -> (r: Result<String, ApiError>)
    ensures
        r matches Ok(s) ==> spec_decrypt(payload.spec_bytes(), key@) == Ok::<Seq<char>, Seq<char>>(s@),
        r matches Err(e) ==> (spec_decrypt(payload.spec_bytes(), key@) matches Err(m) && e.is_internal(m)),
{
    let bytes = match b64_decode(payload.as_bytes()) {
        Err(m) => return Err(ApiError::Internal(crate::text::concat2("decrypt base64: ", m.as_str()))),
        Ok(b) => b,
    };
    if bytes.len() < 12 {
        return Err(ApiError::internal("decrypt: short payload"));
    }
    let nonce = crate::text::slice_bytes(&bytes, 0, 12);
    let ct = crate::text::slice_bytes(&bytes, 12, bytes.len());
    let derived = sha256_digest(key.as_bytes());
    let plain = match aes_gcm_open(&derived, &nonce, &ct) {
        None => {
            proof {
                reveal_strlit("aead::Error");
                reveal_strlit("decrypt: ");
                reveal_strlit("decrypt: aead::Error");
            }
            assert("decrypt: "@ + aead_error_text() == "decrypt: aead::Error"@);
            return Err(ApiError::internal("decrypt: aead::Error"));
        },
        Some(p) => p,
    };
    match utf8_to_string(plain) {
        Err(m) => Err(ApiError::Internal(crate::text::concat2("decrypt utf8: ", m.as_str()))),
        Ok(s) => Ok(s),
    }
}

} // verus!
