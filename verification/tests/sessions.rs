use filebase::error::ApiError;
use filebase::session::{decode_token, hex_decode, issue_token, TOKEN_TTL_HOURS, TOKEN_TTL_SECONDS};

#[test]
fn issued_tokens_are_accepted_until_they_expire() {
    let t = issue_token("secret", "usr_1", "ada@example.com", 1_000);
    let c = decode_token("secret", &t, 1_000).unwrap();
    assert_eq!(c.sub, "usr_1");
    assert_eq!(c.email, "ada@example.com");
    assert_eq!(c.exp, 1_000 + TOKEN_TTL_SECONDS);
    assert!(decode_token("secret", &t, 1_000 + TOKEN_TTL_SECONDS - 1).is_ok());
    assert!(matches!(decode_token("secret", &t, 1_000 + TOKEN_TTL_SECONDS), Err(ApiError::Unauthorized)));
    assert_eq!(TOKEN_TTL_SECONDS, (TOKEN_TTL_HOURS * 3600) as u64);
}

#[test]
fn token_layout() {
    let t = issue_token("k", "ab", "é", 0);
    let parts: Vec<&str> = t.split('.').collect();
    assert_eq!(parts.len(), 4);
    assert_eq!(parts[0], "6162");
    assert_eq!(parts[1], "c3a9");
    assert_eq!(parts[2], "86400");
    assert_eq!(parts[3], filebase::digest::sign_payload("k", b"6162.c3a9.86400"));
}

#[test]
fn tampered_or_foreign_tokens_are_refused() {
    let t = issue_token("secret", "usr_1", "a@b", 0);
    assert!(matches!(decode_token("other", &t, 0), Err(ApiError::Unauthorized)));
    let forged = t.replacen("7573725f31", "7573725f32", 1);
    assert!(matches!(decode_token("secret", &forged, 0), Err(ApiError::Unauthorized)));
    assert!(matches!(decode_token("secret", "", 0), Err(ApiError::Unauthorized)));
    assert!(matches!(decode_token("secret", "a.b.c.d", 0), Err(ApiError::Unauthorized)));
    assert!(matches!(decode_token("secret", &format!("{t}."), 0), Err(ApiError::Unauthorized)));
}

#[test]
fn hex_text_reads_back() {
    let chars: Vec<char> = "00ff10".chars().collect();
    assert_eq!(hex_decode(&chars), Some(vec![0x00, 0xff, 0x10]));
    let upper: Vec<char> = "FF".chars().collect();
    assert_eq!(hex_decode(&upper), None);
    let odd: Vec<char> = "abc".chars().collect();
    assert_eq!(hex_decode(&odd), None);
    assert_eq!(hex_decode(&[]), Some(vec![]));
}
