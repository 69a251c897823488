use filebase::crypto::{decrypt, encrypt};
use filebase::digest::{hash_secret, hex_digest, sign_payload};
use filebase::error::ApiError;
use filebase::password::{hash, verify};

#[test]
fn sha256_hex_of_abc() {
    assert_eq!(
        hex_digest(b"abc"),
        "ba7816bf8f01cfea414140de5dae2223b00361a396177a9cb410ff61f20015ad"
    );
}

#[test]
fn hash_secret_is_hex_sha256_of_the_text() {
    assert_eq!(hash_secret("abc"), hex_digest(b"abc"));
    assert_eq!(
        hash_secret(""),
        "e3b0c44298fc1c149afbf4c8996fb92427ae41e4649b934ca495991b7852b855"
    );
}

#[test]
fn hmac_signature_matches_known_vector() {
    assert_eq!(
        sign_payload("key", b"The quick brown fox jumps over the lazy dog"),
        "f7bc83f430538424b13298e6aa6fb143ef4d59a14946175997479dbc2d1a3cd8"
    );
}

#[test]
fn encrypt_then_decrypt_gives_back_the_text() {
    let key = "a very secret key";
    let sealed = encrypt("ftp-password", key).expect("encrypts");
    assert_ne!(sealed, "ftp-password");
    assert_eq!(decrypt(&sealed, key).expect("decrypts"), "ftp-password");
}

#[test]
fn encryptions_differ_but_both_decrypt() {
    let key = "k";
    let a = encrypt("same", key).unwrap();
    let b = encrypt("same", key).unwrap();
    assert_ne!(a, b);
    assert_eq!(decrypt(&a, key).unwrap(), "same");
    assert_eq!(decrypt(&b, key).unwrap(), "same");
}

#[test]
fn decrypt_with_wrong_key_fails() {
    let sealed = encrypt("secret", "right").unwrap();
    assert!(matches!(decrypt(&sealed, "wrong"), Err(ApiError::Internal(_))));
}

#[test]
fn decrypt_of_garbage_fails() {
    assert!(matches!(decrypt("not base64!!", "k"), Err(ApiError::Internal(_))));
    assert!(matches!(decrypt("AAAA", "k"), Err(ApiError::Internal(_))));
}

#[test]
fn password_hash_verifies() {
    let h = hash("correct horse").expect("hashes");
    assert!(verify("correct horse", &h));
    assert!(!verify("wrong horse", &h));
}

#[test]
fn password_verify_against_unreadable_hash_is_false() {
    assert!(!verify("anything", "not-a-bcrypt-hash"));
}

#[test]
fn password_hashes_use_bcrypt_2b_at_cost_12() {
    let h = hash("hunter2").unwrap();
    assert_eq!(h.len(), 60);
    assert!(h.starts_with("$2b$12$"));
    assert!(verify("hunter2", &h));
}

fn internal_message(r: Result<String, ApiError>) -> String {
    match r {
        Err(ApiError::Internal(m)) => m,
        other => panic!("{:?}", other),
    }
}

#[test]
fn decrypt_errors_carry_the_cause() {
    let sealed = encrypt("secret", "right").unwrap();
    assert_eq!(internal_message(decrypt(&sealed, "wrong")), "decrypt: aead::Error");
    assert_eq!(internal_message(decrypt("AAAA", "k")), "decrypt: short payload");
    let m = internal_message(decrypt("not base64!!", "k"));
    assert!(m.starts_with("decrypt base64: "), "{m}");
    assert!(m.len() > "decrypt base64: ".len());
}
