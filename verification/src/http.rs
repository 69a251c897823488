use vstd::prelude::*;
use crate::error::ApiError;
use crate::password::{password_matches, verify};
use crate::rate_limit::{admits, after_request, bucket_of, RateLimiter};
use crate::session::Claims;
use crate::text::{
    chars_of, concat2, concat3, decimal_int, has_prefix, i64_to_decimal, lemma_split_char_nonempty,
    lowercase, opt_str_view, slice_vec, split_char, split_on, starts_with, string_of, to_lowercase, trim,
    trim_exec,
};

verus! {

/// The cookie that carries a session token.
pub const TOKEN_COOKIE: &'static str = "filebase_session";

/// The span over which the request limits are counted: one minute, in nanoseconds.
pub const RATE_LIMIT_WINDOW_NANOS: u64 = 60_000_000_000;

/// `s` without the prefix `p`, when it begins with it.
pub fn strip_prefix(s: &str, p: &str) -> (r: Option<String>)
    ensures
        r matches Some(t) ==> starts_with(s@, p@) && t@ == s@.skip(p@.len() as int),
        r is None <==> !starts_with(s@, p@),
{
    let sc = chars_of(s);
    let pc = chars_of(p);
    if has_prefix(&sc, &pc) {
        Some(string_of(&slice_vec(&sc, pc.len(), sc.len())))
    } else {
        None
    }
}

/// The token in the first cookie, after trimming, named `filebase_session`.
pub open spec fn first_session_cookie(parts: Seq<Seq<char>>) -> Option<Seq<char>>
    decreases parts.len(),
{
    if parts.len() == 0 {
        None
    } else if starts_with(trim(parts[0]), "filebase_session="@) {
        Some(trim(parts[0]).skip("filebase_session="@.len() as int))
    } else {
        first_session_cookie(parts.drop_first())
    }
}

/// The session token of a request: from an `Authorization: Bearer` header, else
/// from the session cookie.
pub open spec fn spec_extract_token(
    authorization: Option<Seq<char>>,
    cookie: Option<Seq<char>>,
) -> Option<Seq<char>> {
    let bearer = match authorization {
        Some(a) => if starts_with(a, "Bearer "@) {
            Some(a.skip("Bearer "@.len() as int))
        } else {
            None
        },
        None => None,
    };
    match bearer {
        Some(t) => Some(t),
        None => match cookie {
            Some(c) => first_session_cookie(split_char(c, ';')),
            None => None,
        },
    }
}

/// Finds the session token of a request, given its `Authorization` and `Cookie`
/// header values (absent, or not readable as text, is `None`).
pub fn extract_token(authorization: Option<&str>, cookie: Option<&str>) -> (r: Option<String>)
    ensures
        opt_view(r) == spec_extract_token(
            opt_str_view(authorization),
            opt_str_view(cookie),
        ),
{
    if let Some(a) = authorization {
        if let Some(t) = strip_prefix(a, "Bearer ") {
            return Some(t);
        }
    }
    match cookie {
        Some(c) => {
            let cs = chars_of(c);
            let parts = split_on(&cs, ';');
            let name = chars_of("filebase_session=");
            let n = parts.len();
            let ghost all = crate::text::char_views(parts@);
            assert(all.skip(0) == all);
            for i in 0..n
                invariant
                    n == parts@.len(),
                    all == crate::text::char_views(parts@),
                    all == split_char(c@, ';'),
                    name@ == "filebase_session="@,
                    match authorization { Some(a) => !starts_with(a@, "Bearer "@), None => true },
                    cookie == Some(c),
                    first_session_cookie(all) == first_session_cookie(all.skip(i as int)),
            {
                let part = trim_exec(&parts[i]);
                proof {
                    assert(all.skip(i as int)[0] == parts@[i as int]@);
                    assert(all.skip(i as int).drop_first() == all.skip(i + 1));
                }
                if has_prefix(&part, &name) {
                    assert(first_session_cookie(all.skip(i as int)) == Some(part@.skip(name@.len() as int)));
                    return Some(string_of(&slice_vec(&part, name.len(), part.len())));
                }
            }
            proof {
                assert(all.skip(n as int).len() == 0);
            }
            None
        },
        None => None,
    }
}

/// The view of an optional string.
pub open spec fn opt_view(o: Option<String>) -> Option<Seq<char>> {
    match o {
        Some(s) => Some(s@),
        None => None,
    }
}

/// The signed-in user a request acts for.
pub struct AuthUser {
    pub claims: Claims,
}

/// Which limit a request path falls under, with that limit per minute: the
/// sign-in routes under `auth`, the upload routes under `upload`, others none.
pub open spec fn spec_rate_limit_for_path(
    path: Seq<char>,
    auth_limit: usize,
    upload_limit: usize,
) -> Option<(Seq<char>, usize)> {
    if path == "/auth/login"@ || path == "/setup/initialize"@ {
        Some(("auth"@, auth_limit))
    } else if path == "/uploads"@ || path == "/uploads/sign"@ || starts_with(path, "/uploads/"@) {
        Some(("upload"@, upload_limit))
    } else {
        None
    }
}

/// Which limit a request path falls under, with that limit per minute.
pub fn rate_limit_for_path(path: &str, auth_limit: usize, upload_limit: usize) -> (r: Option<(&'static str, usize)>)
    ensures
        match r {
            Some((c, l)) => spec_rate_limit_for_path(path@, auth_limit, upload_limit) == Some((c@, l)),
            None => spec_rate_limit_for_path(path@, auth_limit, upload_limit) is None,
        },
{
    let p = chars_of(path);
    if crate::text::seq_eq(&p, &chars_of("/auth/login")) || crate::text::seq_eq(&p, &chars_of("/setup/initialize")) {
        Some(("auth", auth_limit))
    } else if crate::text::seq_eq(&p, &chars_of("/uploads")) || crate::text::seq_eq(&p, &chars_of("/uploads/sign"))
        || has_prefix(&p, &chars_of("/uploads/")) {
        Some(("upload", upload_limit))
    } else {
        None
    }
}

/// Who a request is counted against: the first address of `X-Forwarded-For`,
/// trimmed, when it is not empty; else `X-Real-IP` as given; else `unknown`.
pub open spec fn spec_client_key(forwarded_for: Option<Seq<char>>, real_ip: Option<Seq<char>>) -> Seq<char> {
    let first = match forwarded_for {
        Some(f) => {
            let t = trim(split_char(f, ',')[0]);
            if t.len() > 0 { Some(t) } else { None }
        },
        None => None,
    };
    match first {
        Some(t) => t,
        None => match real_ip {
            Some(r) => r,
            None => "unknown"@,
        },
    }
}

/// Who a request is counted against, from its `X-Forwarded-For` and `X-Real-IP`
/// header values.
pub fn client_key(forwarded_for: Option<&str>, real_ip: Option<&str>) -> (r: String)
    ensures
        r@ == spec_client_key(
            opt_str_view(forwarded_for),
            opt_str_view(real_ip),
        ),
{
    if let Some(f) = forwarded_for {
        let fc = chars_of(f);
        let parts = split_on(&fc, ',');
        let t = trim_exec(&parts[0]);
        if t.len() > 0 {
            return string_of(&t);
        }
    }
    match real_ip {
        Some(x) => x.to_owned(),
        None => "unknown".to_owned(),
    }
}

/// The key a request is counted under: its limit's name and its client, joined by `:`.
pub open spec fn limiter_key(category: Seq<char>, client: Seq<char>) -> Seq<char> {
    category + ":"@ + client
}

/// What a request does under the request limits, had the clock read `now`:
/// whether it proceeds, and the limiter's state after it. A path under no
/// limit proceeds and changes nothing; any other is counted under its limit's
/// name and client over one minute.
pub open spec fn request_outcome(
    m: Map<Seq<char>, Seq<u128>>,
    path: Seq<char>,
    forwarded_for: Option<Seq<char>>,
    real_ip: Option<Seq<char>>,
    auth_limit: usize,
    upload_limit: usize,
    window: u64,
    now: u128,
) -> (bool, Map<Seq<char>, Seq<u128>>) {
    match spec_rate_limit_for_path(path, auth_limit, upload_limit) {
        None => (true, m),
        Some((category, limit)) => {
            let key = limiter_key(category, spec_client_key(forwarded_for, real_ip));
            (
                admits(m, key, limit, window, now),
                after_request(m, key, limit, window, now),
            )
        },
    }
}

/// Requests under different limits never count against each other: a request
/// counted under a limit's category touches only the bucket of its own key,
/// which begins with that category and `:`; every bucket whose key does not
/// begin so is left as it was.
pub proof fn law_categories_do_not_share(
    m: Map<Seq<char>, Seq<u128>>,
    path: Seq<char>,
    forwarded_for: Option<Seq<char>>,
    real_ip: Option<Seq<char>>,
    auth_limit: usize,
    upload_limit: usize,
    window: u64,
    now: u128,
    k: Seq<char>,
)
    requires
        spec_rate_limit_for_path(path, auth_limit, upload_limit) is Some,
        !starts_with(k, spec_rate_limit_for_path(path, auth_limit, upload_limit)->Some_0.0 + ":"@),
    ensures
        bucket_of(
            request_outcome(m, path, forwarded_for, real_ip, auth_limit, upload_limit, window, now).1,
            k,
        ) == bucket_of(m, k),
{
    let (c, l) = spec_rate_limit_for_path(path, auth_limit, upload_limit)->Some_0;
    let key = limiter_key(c, spec_client_key(forwarded_for, real_ip));
    let prefix = c + ":"@;
    assert(key.subrange(0, prefix.len() as int) =~= prefix);
    assert(starts_with(key, prefix));
    assert(k != key);
    let after = after_request(m, key, l, window, now);
    if l > 0 {
        assert(after.dom().contains(k) == m.dom().contains(k));
        if m.dom().contains(k) {
            assert(after[k] == m[k]);
        }
    }
}

/// The sign-in and upload limits are kept apart: a request on an upload path
/// leaves every sign-in bucket (`auth:` and a client) as it was, and a sign-in
/// request leaves every upload bucket (`upload:` and a client) as it was.
pub proof fn law_sign_in_and_uploads_apart(
    m: Map<Seq<char>, Seq<u128>>,
    path: Seq<char>,
    forwarded_for: Option<Seq<char>>,
    real_ip: Option<Seq<char>>,
    auth_limit: usize,
    upload_limit: usize,
    window: u64,
    now: u128,
    client: Seq<char>,
)
    ensures
        spec_rate_limit_for_path(path, auth_limit, upload_limit) matches Some((c, _)) && c == "upload"@
            ==> bucket_of(
            request_outcome(m, path, forwarded_for, real_ip, auth_limit, upload_limit, window, now).1,
            "auth:"@ + client,
        ) == bucket_of(m, "auth:"@ + client),
        spec_rate_limit_for_path(path, auth_limit, upload_limit) matches Some((c, _)) && c == "auth"@
            ==> bucket_of(
            request_outcome(m, path, forwarded_for, real_ip, auth_limit, upload_limit, window, now).1,
            "upload:"@ + client,
        ) == bucket_of(m, "upload:"@ + client),
{
    reveal_strlit("auth");
    reveal_strlit("upload");
    reveal_strlit("auth:");
    reveal_strlit("upload:");
    reveal_strlit(":");
    if let Some((c, _)) = spec_rate_limit_for_path(path, auth_limit, upload_limit) {
        let k1 = "auth:"@ + client;
        let k2 = "upload:"@ + client;
        if c == "upload"@ {
            assert(k1[0] == 'a');
            assert(("upload"@ + ":"@)[0] == 'u');
            if starts_with(k1, "upload"@ + ":"@) {
                assert(k1.subrange(0, 7)[0] == k1[0]);
            }
            law_categories_do_not_share(m, path, forwarded_for, real_ip, auth_limit, upload_limit, window, now, k1);
        }
        if c == "auth"@ {
            assert(k2[0] == 'u');
            assert(("auth"@ + ":"@)[0] == 'a');
            if starts_with(k2, "auth"@ + ":"@) {
                assert(k2.subrange(0, 5)[0] == k2[0]);
            }
            law_categories_do_not_share(m, path, forwarded_for, real_ip, auth_limit, upload_limit, window, now, k2);
        }
    }
}

/// Decides whether a request may proceed past the request limits, given its
/// path, its `X-Forwarded-For` and `X-Real-IP` values and the per-minute
/// limits; the decision is `request_outcome` at the time the clock gave, over
/// the one-minute window, or over none when the clock does not reach back a
/// minute (as `RateLimiter::allow` decides).
pub fn enforce(
    limiter: &mut RateLimiter,
    path: &str,
    forwarded_for: Option<&str>,
    real_ip: Option<&str>,
    auth_limit: usize,
    upload_limit: usize,
) -> (r: bool)
    requires
        old(limiter).wf(),
    ensures
        final(limiter).wf(),
        exists|window: u64, now: u128|
            (window == RATE_LIMIT_WINDOW_NANOS || window == 0) && (r, final(limiter)@) == #[trigger] request_outcome(
                old(limiter)@,
                path@,
                opt_str_view(forwarded_for),
                opt_str_view(real_ip),
                auth_limit,
                upload_limit,
                window,
                now,
            ),
{
    let ghost fwd = opt_str_view(forwarded_for);
    let ghost rip = opt_str_view(real_ip);
    let ghost old_m = limiter@;
    match rate_limit_for_path(path, auth_limit, upload_limit) {
        None => {
            assert((true, limiter@) == request_outcome(old_m, path@, fwd, rip, auth_limit, upload_limit, RATE_LIMIT_WINDOW_NANOS, 0));
            true
        },
        Some((category, limit)) => {
            let client = client_key(forwarded_for, real_ip);
            let key = concat3(category, ":", client.as_str());
            assert(key@ == limiter_key(category@, spec_client_key(fwd, rip)));
            let r = limiter.allow(key.as_str(), limit, RATE_LIMIT_WINDOW_NANOS);
            proof {
                let (now, window) = choose|now: u128, window: u64|
                    #![trigger after_request(old_m, key@, limit, window, now)]
                    (window == RATE_LIMIT_WINDOW_NANOS || window == 0)
                        && r == admits(old_m, key@, limit, window, now)
                        && limiter@ == after_request(old_m, key@, limit, window, now);
                assert((r, limiter@) == request_outcome(old_m, path@, fwd, rip, auth_limit, upload_limit, window, now));
            }
            r
        },
    }
}

/// The headers added to every response, name and value.
pub fn security_headers() -> (r: Vec<(&'static str, &'static str)>)
    ensures
        r@.len() == 5,
        r@[0].0@ == "x-content-type-options"@ && r@[0].1@ == "nosniff"@,
        r@[1].0@ == "x-frame-options"@ && r@[1].1@ == "DENY"@,
        r@[2].0@ == "referrer-policy"@ && r@[2].1@ == "no-referrer"@,
        r@[3].0@ == "permissions-policy"@ && r@[3].1@ == "camera=(), microphone=(), geolocation=()"@,
        r@[4].0@ == "cross-origin-opener-policy"@ && r@[4].1@ == "same-origin"@,
{
    vec![
        ("x-content-type-options", "nosniff"),
        ("x-frame-options", "DENY"),
        ("referrer-policy", "no-referrer"),
        ("permissions-policy", "camera=(), microphone=(), geolocation=()"),
        ("cross-origin-opener-policy", "same-origin"),
    ]
}

/// The body of the liveness probe.
pub struct HealthResponse {
    pub status: &'static str,
}

/// The body of the readiness probe.
pub struct ReadinessResponse {
    pub status: &'static str,
    pub database: &'static str,
    pub redis: &'static str,
}

/// The liveness probe: always `ok`.
pub fn live() -> (r: HealthResponse)
    ensures
        r.status@ == "ok"@,
{
    HealthResponse { status: "ok" }
}

/// The readiness probe's status code and body, given whether the database and
/// Redis answered: 200 and `ok` when both did, else 503 and `degraded`; each
/// service is `ok` or `unavailable`.
pub fn ready(database_ok: bool, redis_ok: bool) -> (r: (u16, ReadinessResponse))
    ensures
        r.0 == (if database_ok && redis_ok { 200u16 } else { 503u16 }),
        r.1.status@ == (if database_ok && redis_ok { "ok"@ } else { "degraded"@ }),
        r.1.database@ == (if database_ok { "ok"@ } else { "unavailable"@ }),
        r.1.redis@ == (if redis_ok { "ok"@ } else { "unavailable"@ }),
{
    let code: u16 = if database_ok && redis_ok { 200 } else { 503 };
    (
        code,
        ReadinessResponse {
            status: if code == 200 { "ok" } else { "degraded" },
            database: if database_ok { "ok" } else { "unavailable" },
            redis: if redis_ok { "ok" } else { "unavailable" },
        },
    )
}

/// A sign-in request.
pub struct LoginRequest {
    pub email: String,
    pub password: String,
}

/// A user as the API shows it.
pub struct PublicUser {
    pub id: String,
    pub name: String,
    pub email: String,
}

/// The answer to a successful sign-in.
pub struct LoginResponse {
    pub token: String,
    pub user: PublicUser,
}

/// A project as the API lists it.
pub struct ProjectView {
    pub id: String,
    pub name: String,
    pub slug: String,
    pub created_at: String,
}

/// The address a sign-in looks up: refused when the email or password is
/// empty, else the email lowercased.
pub fn login_email(req: &LoginRequest) -> (r: Result<String, ApiError>)
    ensures
        (req.email@.len() == 0 || req.password@.len() == 0) <==> r is Err,
        r matches Err(e) ==> e.is_validation("email and password are required"@),
        r matches Ok(e) ==> e@ == lowercase(req.email@),
{
    if chars_of(req.email.as_str()).len() == 0 || chars_of(req.password.as_str()).len() == 0 {
        return Err(ApiError::validation("email and password are required"));
    }
    Ok(to_lowercase(req.email.as_str()))
}

/// Accepts a sign-in: the user found under the address, with its stored
/// password hash, when the password matches it; otherwise unauthorized.
pub fn authenticate(found: Option<(PublicUser, String)>, password: &str) -> (r: Result<PublicUser, ApiError>)
    ensures
        r is Ok <==> (found matches Some((_, h)) && password_matches(password@, h@)),
        r matches Ok(u) ==> found matches Some((v, _)) && u == v,
        r matches Err(e) ==> e is Unauthorized,
{
    match found {
        Some((user, hash)) => {
            if verify(password, hash.as_str()) {
                Ok(user)
            } else {
                Err(ApiError::Unauthorized)
            }
        },
        None => Err(ApiError::Unauthorized),
    }
}

/// The cookie that stores a session token for `ttl_hours` hours.
pub fn login_cookie(token: &str, ttl_hours: i64) -> (r: String)
    requires
        i64::MIN <= ttl_hours * 3600 <= i64::MAX,
    ensures
        r@ == "filebase_session="@ + token@ + "; Path=/; HttpOnly; SameSite=Lax; Max-Age="@
            + decimal_int(ttl_hours * 3600),
{
    let age = i64_to_decimal(ttl_hours * 3600);
    let head = concat3("filebase_session=", token, "; Path=/; HttpOnly; SameSite=Lax; Max-Age=");
    concat2(head.as_str(), age.as_str())
}

/// The cookie that clears the session.
pub fn logout_cookie() -> (r: &'static str)
    ensures
        r@ == "filebase_session=; Path=/; HttpOnly; SameSite=Lax; Max-Age=0"@,
{
    "filebase_session=; Path=/; HttpOnly; SameSite=Lax; Max-Age=0"
}

} // verus!
