use filebase::access::{ensure_project_owner, listing_scope, Listing};
use filebase::api_keys::{generate_key, hash_key, issue_key, key_prefix, validate_name, CreateRequest, KeyMode};
use filebase::error::ApiError;
use filebase::http::{
    enforce, authenticate, client_key, extract_token, live, login_cookie, login_email,
    logout_cookie, rate_limit_for_path, ready, security_headers, strip_prefix, LoginRequest,
    PublicUser, RATE_LIMIT_WINDOW_NANOS,
};
use filebase::rate_limit::RateLimiter;
use filebase::setup::{slugify, status, validate_admin, AdminInput};

fn validation<T>(r: Result<T, ApiError>) -> String {
    match r {
        Err(ApiError::Validation(m)) => m,
        Err(e) => panic!("expected a validation error, got {:?}", e),
        Ok(_) => panic!("expected a validation error, got a success"),
    }
}

#[test]
fn limiter_counts_within_the_window() {
    let mut l = RateLimiter::new();
    assert!(l.allow_at("k", 2, 10, 0));
    assert!(l.allow_at("k", 2, 10, 1));
    assert!(!l.allow_at("k", 2, 10, 2));
    assert!(!l.allow_at("k", 2, 10, 9));
    // the first admission (at 0) leaves the window at 10
    assert!(l.allow_at("k", 2, 10, 10));
    assert!(!l.allow_at("k", 2, 10, 10));
}

#[test]
fn limiter_keys_are_independent() {
    let mut l = RateLimiter::new();
    assert!(l.allow_at("a", 1, 100, 0));
    assert!(!l.allow_at("a", 1, 100, 1));
    assert!(l.allow_at("b", 1, 100, 1));
}

#[test]
fn limiter_without_limit_always_admits() {
    let mut l = RateLimiter::new();
    for t in 0..100u128 {
        assert!(l.allow_at("k", 0, 10, t));
    }
    assert!(l.allow("k", 0, 10));
}

#[test]
fn limiter_on_the_clock() {
    let mut l = RateLimiter::new();
    assert!(l.allow("k", 2, 60_000_000_000));
    assert!(l.allow("k", 2, 60_000_000_000));
    assert!(!l.allow("k", 2, 60_000_000_000));
}

#[test]
fn request_limits_by_path() {
    assert_eq!(rate_limit_for_path("/auth/login", 10, 60), Some(("auth", 10)));
    assert_eq!(rate_limit_for_path("/setup/initialize", 10, 60), Some(("auth", 10)));
    assert_eq!(rate_limit_for_path("/uploads", 10, 60), Some(("upload", 60)));
    assert_eq!(rate_limit_for_path("/uploads/sign", 10, 60), Some(("upload", 60)));
    assert_eq!(rate_limit_for_path("/uploads/session_1", 10, 60), Some(("upload", 60)));
    assert_eq!(rate_limit_for_path("/files", 10, 60), None);
    assert_eq!(rate_limit_for_path("/uploadsx", 10, 60), None);
}

#[test]
fn client_keys() {
    assert_eq!(client_key(Some(" 1.2.3.4 , 5.6.7.8"), Some("9.9.9.9")), "1.2.3.4");
    assert_eq!(client_key(Some(" ,5.6.7.8"), Some("9.9.9.9")), "9.9.9.9");
    assert_eq!(client_key(None, Some(" 9.9.9.9")), " 9.9.9.9");
    assert_eq!(client_key(None, None), "unknown");
    assert_eq!(client_key(Some(""), None), "unknown");
}

#[test]
fn admission_by_path_and_client() {
    let mut l = RateLimiter::new();
    assert!(enforce(&mut l, "/auth/login", Some("1.1.1.1"), None, 1, 5));
    assert!(!enforce(&mut l, "/auth/login", Some("1.1.1.1"), None, 1, 5));
    assert!(enforce(&mut l, "/setup/initialize", Some("2.2.2.2"), None, 1, 5));
    assert!(enforce(&mut l, "/uploads", Some("1.1.1.1"), None, 1, 5));
    for _ in 0..10 {
        assert!(enforce(&mut l, "/files", Some("1.1.1.1"), None, 1, 5));
    }
    assert_eq!(RATE_LIMIT_WINDOW_NANOS, 60_000_000_000);
}

#[test]
fn session_tokens() {
    assert_eq!(extract_token(Some("Bearer abc"), Some("filebase_session=xyz")).unwrap(), "abc");
    assert_eq!(extract_token(Some("Basic abc"), Some("a=1; filebase_session=xyz; b=2")).unwrap(), "xyz");
    assert_eq!(extract_token(None, Some("filebase_session=")).unwrap(), "");
    assert_eq!(extract_token(None, Some("a=1;b=2")), None);
    assert_eq!(extract_token(None, None), None);
    assert_eq!(extract_token(None, Some(" filebase_session=one ; filebase_session=two")).unwrap(), "one");
}

#[test]
fn prefixes() {
    assert_eq!(strip_prefix("Bearer x", "Bearer ").unwrap(), "x");
    assert_eq!(strip_prefix("Bear", "Bearer "), None);
}

#[test]
fn response_headers() {
    let h = security_headers();
    assert_eq!(
        h,
        vec![
            ("x-content-type-options", "nosniff"),
            ("x-frame-options", "DENY"),
            ("referrer-policy", "no-referrer"),
            ("permissions-policy", "camera=(), microphone=(), geolocation=()"),
            ("cross-origin-opener-policy", "same-origin"),
        ]
    );
}

#[test]
fn probes() {
    assert_eq!(live().status, "ok");
    let (code, body) = ready(true, true);
    assert_eq!((code, body.status, body.database, body.redis), (200, "ok", "ok", "ok"));
    let (code, body) = ready(true, false);
    assert_eq!((code, body.status, body.database, body.redis), (503, "degraded", "ok", "unavailable"));
    let (code, body) = ready(false, true);
    assert_eq!((code, body.status, body.database, body.redis), (503, "degraded", "unavailable", "ok"));
}

#[test]
fn login_addresses() {
    let req = LoginRequest { email: "Admin@Example.COM".into(), password: "pw".into() };
    assert_eq!(login_email(&req).unwrap(), "admin@example.com");
    let empty = LoginRequest { email: "".into(), password: "pw".into() };
    assert_eq!(validation(login_email(&empty)), "email and password are required");
    let nopw = LoginRequest { email: "a@b".into(), password: "".into() };
    assert_eq!(validation(login_email(&nopw)), "email and password are required");
}

#[test]
fn login_checks_the_password() {
    let h = filebase::password::hash("s3cret-pass").unwrap();
    let user = PublicUser { id: "user_1".into(), name: "A".into(), email: "a@b".into() };
    let ok = authenticate(Some((user, h.clone())), "s3cret-pass").unwrap();
    assert_eq!(ok.id, "user_1");
    let user = PublicUser { id: "user_1".into(), name: "A".into(), email: "a@b".into() };
    assert!(matches!(authenticate(Some((user, h)), "wrong"), Err(ApiError::Unauthorized)));
    assert!(matches!(authenticate(None, "x"), Err(ApiError::Unauthorized)));
}

#[test]
fn cookies() {
    assert_eq!(
        login_cookie("tok", 24),
        "filebase_session=tok; Path=/; HttpOnly; SameSite=Lax; Max-Age=86400"
    );
    assert_eq!(logout_cookie(), "filebase_session=; Path=/; HttpOnly; SameSite=Lax; Max-Age=0");
}

#[test]
fn project_ownership() {
    assert!(ensure_project_owner(Some("u1"), "u1").is_ok());
    assert!(matches!(ensure_project_owner(Some("u2"), "u1"), Err(ApiError::Forbidden)));
    assert!(matches!(ensure_project_owner(None, "u1"), Err(ApiError::NotFound)));
}

#[test]
fn listings() {
    let owned = vec!["p1".to_string(), "p2".to_string()];
    assert!(matches!(listing_scope(&vec![], Some("p1")), Ok(Listing::Empty)));
    assert!(matches!(listing_scope(&owned, None), Ok(Listing::Within)));
    assert!(matches!(listing_scope(&owned, Some("p2")), Ok(Listing::Within)));
    assert!(matches!(listing_scope(&owned, Some("p3")), Err(ApiError::Forbidden)));
}

#[test]
fn api_key_names() {
    assert_eq!(validate_name("  deploy key ").unwrap(), "deploy key");
    assert_eq!(validation(validate_name("   ")), "API key name is required");
}

#[test]
fn api_keys_are_issued_with_prefix_and_hash() {
    let live_key = generate_key(&KeyMode::Live);
    assert!(live_key.starts_with("fb_live_"));
    assert_eq!(live_key.len(), 48);
    assert!(generate_key(&KeyMode::Test).starts_with("fb_test_"));
    let req = CreateRequest { project_id: "p".into(), name: " ci ".into(), mode: KeyMode::Test };
    let k = issue_key(&req).unwrap();
    assert_eq!(k.name, "ci");
    assert_eq!(k.prefix, &k.secret[..16]);
    assert_eq!(k.hash, hash_key(&k.secret));
    assert_eq!(k.hash, filebase::digest::hash_secret(&k.secret));
    assert_eq!(key_prefix("short"), "short");
    let bad = CreateRequest { project_id: "p".into(), name: "".into(), mode: KeyMode::Live };
    assert_eq!(validation(issue_key(&bad)), "API key name is required");
}

#[test]
fn setup_status_and_admin() {
    assert!(status(0).setup_required);
    assert!(!status(3).setup_required);
    let admin = AdminInput { name: "Ada".into(), email: "ada@x.io".into(), password: "12345678".into() };
    assert!(validate_admin(&admin).is_ok());
    let a = AdminInput { name: " ".into(), email: "ada@x.io".into(), password: "12345678".into() };
    assert_eq!(validation(validate_admin(&a)), "admin name is required");
    let a = AdminInput { name: "Ada".into(), email: "ada.x.io".into(), password: "12345678".into() };
    assert_eq!(validation(validate_admin(&a)), "admin email is invalid");
    let a = AdminInput { name: "Ada".into(), email: "ada@x.io".into(), password: "1234567".into() };
    assert_eq!(validation(validate_admin(&a)), "password must be at least 8 characters");
}

#[test]
fn project_slugs() {
    assert_eq!(slugify("  My First Project! "), "my-first-project");
    assert_eq!(slugify("a--b"), "a-b");
    assert_eq!(slugify("***"), "");
}

#[test]
fn a_throttled_key_is_let_in_once_the_window_has_passed() {
    let mut l = RateLimiter::new();
    assert!(l.allow_at("k", 1, 100, 1_000));
    assert!(!l.allow_at("k", 1, 100, 1_050));
    assert!(!l.allow_at("k", 1, 100, 1_099));
    assert!(l.allow_at("k", 1, 100, 1_100));
}
