use vstd::prelude::*;
use vstd::string::StringSliceAdditionalSpecFns;
use vstd::utf8::{decode_utf8, encode_utf8, valid_utf8};
use crate::config::{parse_uint, read_digits, is_digit, digit_value};
use crate::digest::hmac_sha256;
use crate::text::{decimal, digit_char, hex_char, hex_lower, is_lower_hex, split_char};

verus! {

/// The value of a lowercase hexadecimal digit.
pub open spec fn hex_value(c: char) -> int {
    if '0' <= c && c <= '9' {
        (c as int) - ('0' as int)
    } else {
        (c as int) - ('a' as int) + 10
    }
}

/// The bytes a lowercase hexadecimal text stands for, two digits per byte;
/// `None` for an odd length or a character that is not such a digit.
pub open spec fn hex_decoded(s: Seq<char>) -> Option<Seq<u8>>
    decreases s.len(),
{
    if s.len() == 0 {
        Some(Seq::empty())
    } else if s.len() < 2 {
        None
    } else if !is_lower_hex(s[s.len() - 2]) || !is_lower_hex(s.last()) {
        None
    } else {
        match hex_decoded(s.take(s.len() - 2)) {
            None => None,
            Some(p) => Some(p.push((16 * hex_value(s[s.len() - 2]) + hex_value(s.last())) as u8)),
        }
    }
}

proof fn lemma_hex_char_value(d: nat)
    requires
        d < 16,
    ensures
        is_lower_hex(hex_char(d)),
        hex_value(hex_char(d)) == d,
{
}

/// Reading back lowercase hex gives the bytes that were written.
pub proof fn lemma_hex_roundtrip(b: Seq<u8>)
    ensures
        hex_decoded(hex_lower(b)) == Some(b),
    decreases b.len(),
{
    if b.len() > 0 {
        let p = b.drop_last();
        lemma_hex_roundtrip(p);
        let x = b.last();
        let h = hex_lower(b);
        lemma_hex_char_value((x / 16) as nat);
        lemma_hex_char_value((x % 16) as nat);
        crate::text::lemma_hex_lower_shape(p);
        assert(h.take(h.len() - 2) == hex_lower(p));
        assert(h[h.len() - 2] == hex_char((x / 16) as nat));
        assert(h.last() == hex_char((x % 16) as nat));
        assert((16 * ((x / 16) as int) + ((x % 16) as int)) as u8 == x);
        assert(p.push(x) == b);
    }
}

proof fn lemma_read_digits_push(s: Seq<char>, c: char, acc: int, max: int)
    ensures
        read_digits(s.push(c), acc, max) == match read_digits(s, acc, max) {
            Err(k) => Err(k),
            Ok(v) => if !is_digit(c) {
                Err(crate::config::IntErrorKind::InvalidDigit)
            } else if v * 10 + digit_value(c) > max {
                Err(crate::config::IntErrorKind::PosOverflow)
            } else {
                Ok(v * 10 + digit_value(c))
            },
        },
    decreases s.len(),
{
    if s.len() > 0 {
        let sc = s.push(c);
        assert(sc.drop_first() == s.drop_first().push(c));
        assert(sc[0] == s[0]);
        assert(sc.len() > 0);
        if is_digit(s[0]) && acc * 10 + digit_value(s[0]) <= max {
            lemma_read_digits_push(s.drop_first(), c, acc * 10 + digit_value(s[0]), max);
            assert(read_digits(sc, acc, max) == read_digits(sc.drop_first(), acc * 10 + digit_value(s[0]), max));
            assert(read_digits(s, acc, max) == read_digits(s.drop_first(), acc * 10 + digit_value(s[0]), max));
        } else if !is_digit(s[0]) {
            assert(read_digits(sc, acc, max) == Err::<int, crate::config::IntErrorKind>(crate::config::IntErrorKind::InvalidDigit));
            assert(read_digits(s, acc, max) == Err::<int, crate::config::IntErrorKind>(crate::config::IntErrorKind::InvalidDigit));
        } else {
            assert(read_digits(sc, acc, max) == Err::<int, crate::config::IntErrorKind>(crate::config::IntErrorKind::PosOverflow));
            assert(read_digits(s, acc, max) == Err::<int, crate::config::IntErrorKind>(crate::config::IntErrorKind::PosOverflow));
        }
    } else {
        let sc = s.push(c);
        assert(sc == seq![c]);
        assert(sc.drop_first() == Seq::<char>::empty());
        assert(read_digits(s, acc, max) == Ok::<int, crate::config::IntErrorKind>(acc));
        if is_digit(c) && acc * 10 + digit_value(c) <= max {
            assert(read_digits(Seq::<char>::empty(), acc * 10 + digit_value(c), max) == Ok::<int, crate::config::IntErrorKind>(acc * 10 + digit_value(c)));
        }
    }
}

proof fn lemma_digit_char(d: nat)
    requires
        d < 10,
    ensures
        is_digit(digit_char(d)),
        digit_value(digit_char(d)) == d,
        digit_char(d) != '.',
        digit_char(d) != '+',
        digit_char(d) != '-',
{
}

/// Decimal text holds only digits, and begins with one.
pub proof fn lemma_decimal_digits(n: nat)
    ensures
        decimal(n).len() > 0,
        forall|i: int| 0 <= i < decimal(n).len() ==> #[trigger] is_digit(decimal(n)[i]) && decimal(n)[i] != '.',
    decreases n,
{
    if n < 10 {
        lemma_digit_char(n);
    } else {
        lemma_decimal_digits(n / 10);
        lemma_digit_char(n % 10);
        let p = decimal(n / 10);
        assert forall|i: int| 0 <= i < decimal(n).len() implies #[trigger] is_digit(decimal(n)[i]) && decimal(n)[i] != '.' by {
            if i < p.len() {
                assert(decimal(n)[i] == p[i]);
            }
        }
    }
}

/// Reading back decimal text gives the number that was written.
pub proof fn lemma_decimal_reads_back(n: nat, max: int)
    requires
        n <= max,
    ensures
        read_digits(decimal(n), 0, max) == Ok::<int, crate::config::IntErrorKind>(n as int),
    decreases n,
{
    if n < 10 {
        lemma_digit_char(n);
        assert(decimal(n) == seq![digit_char(n)]);
        assert(decimal(n).drop_first() == Seq::<char>::empty());
        assert(read_digits(Seq::<char>::empty(), 0 * 10 + digit_value(digit_char(n)), max) == Ok::<int, crate::config::IntErrorKind>(n as int));
    } else {
        lemma_decimal_reads_back(n / 10, max);
        lemma_digit_char(n % 10);
        lemma_read_digits_push(decimal(n / 10), digit_char(n % 10), 0, max);
        assert(decimal(n) == decimal(n / 10).push(digit_char(n % 10)));
        assert((n / 10) * 10 + (n % 10) == n);
        assert(((n / 10) as int) * 10 + digit_value(digit_char(n % 10)) == n as int);
    }
}

/// Decimal text is read by `parse_uint` as the number written.
pub proof fn lemma_parse_decimal(n: nat, max: int)
    requires
        n <= max,
    ensures
        parse_uint(decimal(n), max) == Ok::<int, crate::config::IntErrorKind>(n as int),
{
    lemma_decimal_digits(n);
    lemma_decimal_reads_back(n, max);
    reveal_strlit("+");
    reveal_strlit("-");
    assert(is_digit(decimal(n)[0]));
    if decimal(n) == "+"@ || decimal(n) == "-"@ {
        assert(decimal(n)[0] == '+' || decimal(n)[0] == '-');
    }
}

/// Splitting text that holds no separator gives the text itself.
proof fn lemma_split_extend(s: Seq<char>, t: Seq<char>, c: char)
    requires
        !t.contains(c),
    ensures
        split_char(s + t, c) == split_char(s, c).update(
            split_char(s, c).len() - 1,
            split_char(s, c).last() + t,
        ),
    decreases t.len(),
{
    crate::text::lemma_split_char_nonempty(s, c);
    if t.len() == 0 {
        assert(s + t == s);
        assert(split_char(s, c).last() + t == split_char(s, c).last());
        assert(split_char(s, c).update(split_char(s, c).len() - 1, split_char(s, c).last())
            == split_char(s, c));
    } else {
        let t0 = t.drop_last();
        assert(!t0.contains(c)) by {
            if t0.contains(c) {
                let k = choose|k: int| 0 <= k < t0.len() && t0[k] == c;
                assert(t[k] == c);
            }
        }
        lemma_split_extend(s, t0, c);
        assert((s + t).drop_last() == s + t0);
        assert((s + t).last() == t.last());
        assert(t.last() != c) by {
            assert(t[t.len() - 1] == t.last());
        }
        crate::text::lemma_split_char_nonempty(s + t0, c);
        assert(t0.push(t.last()) == t);
        assert(split_char(s, c).last() + t0 + seq![t.last()] == split_char(s, c).last() + t);
    }
}

/// Splitting `s`, a separator, then separator-free `t`, adds `t` as a piece.
proof fn lemma_split_append(s: Seq<char>, t: Seq<char>, c: char)
    requires
        !t.contains(c),
    ensures
        split_char(s.push(c) + t, c) == split_char(s, c).push(t),
{
    lemma_split_extend(s.push(c), t, c);
    assert(s.push(c).drop_last() == s);
    crate::text::lemma_split_char_nonempty(s, c);
    assert(split_char(s, c).push(Seq::empty()).update(split_char(s, c).len() as int, Seq::<char>::empty() + t)
        == split_char(s, c).push(t));
}

/// The text of a session token: the subject and email as lowercase hex of
/// their UTF-8 bytes, the expiry in decimal seconds, and the lowercase hex
/// HMAC-SHA256 of those three (joined by `.`) under the secret; all four
/// joined by `.`.
pub open spec fn token_body(sub: Seq<char>, email: Seq<char>, exp: u64) -> Seq<char> {
    hex_lower(encode_utf8(sub)) + "."@ + hex_lower(encode_utf8(email)) + "."@ + decimal(exp as nat)
}

/// The full text of a session token under a secret.
pub open spec fn token_text(secret: Seq<u8>, sub: Seq<char>, email: Seq<char>, exp: u64) -> Seq<char> {
    token_body(sub, email, exp) + "."@ + hex_lower(hmac_sha256(secret, encode_utf8(token_body(sub, email, exp))))
}

/// The claims a token's text states, if it is well formed: four pieces, the
/// first two lowercase hex of UTF-8 text, the third a number of seconds.
pub open spec fn read_token(t: Seq<char>) -> Option<(Seq<char>, Seq<char>, u64)> {
    let parts = split_char(t, '.');
    if parts.len() != 4 {
        None
    } else {
        match (hex_decoded(parts[0]), hex_decoded(parts[1]), parse_uint(parts[2], u64::MAX as int)) {
            (Some(a), Some(b), Ok(x)) => if valid_utf8(a) && valid_utf8(b) {
                Some((decode_utf8(a), decode_utf8(b), x as u64))
            } else {
                None
            },
            _ => None,
        }
    }
}

proof fn lemma_hex_has_no_dot(b: Seq<u8>)
    ensures
        !hex_lower(b).contains('.'),
{
    crate::text::lemma_hex_lower_shape(b);
    if hex_lower(b).contains('.') {
        let k = choose|k: int| 0 <= k < hex_lower(b).len() && hex_lower(b)[k] == '.';
        assert(is_lower_hex(hex_lower(b)[k]));
    }
}

/// A token reads back as the claims it was written with.
pub proof fn law_token_roundtrip(secret: Seq<u8>, sub: Seq<char>, email: Seq<char>, exp: u64)
    ensures
        read_token(token_text(secret, sub, email, exp)) == Some((sub, email, exp)),
{
    let a = hex_lower(encode_utf8(sub));
    let b = hex_lower(encode_utf8(email));
    let d = decimal(exp as nat);
    let tag = hex_lower(hmac_sha256(secret, encode_utf8(token_body(sub, email, exp))));
    lemma_hex_has_no_dot(encode_utf8(sub));
    lemma_hex_has_no_dot(encode_utf8(email));
    lemma_hex_has_no_dot(hmac_sha256(secret, encode_utf8(token_body(sub, email, exp))));
    lemma_decimal_digits(exp as nat);
    assert(!d.contains('.')) by {
        if d.contains('.') {
            let k = choose|k: int| 0 <= k < d.len() && d[k] == '.';
            assert(is_digit(d[k]) && d[k] != '.');
        }
    }
    reveal_strlit(".");
    let empty = Seq::<char>::empty();
    assert(split_char(empty + a, '.') == seq![a]) by {
        lemma_split_extend(empty, a, '.');
        assert(empty + a == a);
    }
    assert(empty + a == a);
    lemma_split_append(a, b, '.');
    assert(a + "."@ == a.push('.'));
    lemma_split_append(a + "."@ + b, d, '.');
    assert(a + "."@ + b + "."@ == (a + "."@ + b).push('.'));
    lemma_split_append(a + "."@ + b + "."@ + d, tag, '.');
    assert(token_body(sub, email, exp) + "."@ == (a + "."@ + b + "."@ + d).push('.'));
    let parts = split_char(token_text(secret, sub, email, exp), '.');
    assert(parts == seq![a, b, d, tag]);
    lemma_hex_roundtrip(encode_utf8(sub));
    lemma_hex_roundtrip(encode_utf8(email));
    lemma_parse_decimal(exp as nat, u64::MAX as int);
    vstd::utf8::encode_utf8_valid_utf8(sub);
    vstd::utf8::encode_utf8_valid_utf8(email);
    vstd::utf8::encode_utf8_decode_utf8(sub);
    vstd::utf8::encode_utf8_decode_utf8(email);
}

/// How long a session lasts, in hours.
pub const TOKEN_TTL_HOURS: i64 = 24;

/// How long a session lasts, in seconds.
pub const TOKEN_TTL_SECONDS: u64 = 86400;

/// What a session token vouches for: the user, their email, and when it
/// stops being valid (seconds since the Unix epoch).
#[derive(Debug)]
pub struct Claims {
    pub sub: String,
    pub email: String,
    pub exp: u64,
}

fn hex_digit_value(c: char) -> (r: u8)
    requires
        is_lower_hex(c),
    ensures
        r as int == hex_value(c),
        r < 16,
{
    if '0' <= c && c <= '9' {
        ((c as u32) - ('0' as u32)) as u8
    } else {
        ((c as u32) - ('a' as u32) + 10) as u8
    }
}

/// Reads lowercase hexadecimal text back into bytes.
pub fn hex_decode(s: &[char]) -> (r: Option<Vec<u8>>)
    ensures
        match r {
            Some(v) => hex_decoded(s@) == Some(v@),
            None => hex_decoded(s@) is None,
        },
{
    if s.len() % 2 != 0 {
        proof {
            lemma_hex_decoded_odd(s@);
        }
        return None;
    }
    let len = s.len();
    let n = len / 2;
    let mut out: Vec<u8> = Vec::new();
    let mut i: usize = 0;
    assert(s@.take(0) == Seq::<char>::empty());
    while i < n
        invariant
            n * 2 == s@.len(),
            len == s@.len(),
            i <= n,
            hex_decoded(s@.take(2 * i as int)) == Some(out@),
        decreases n - i,
    {
        let hi = s[2 * i];
        let lo = s[2 * i + 1];
        let ghost t = s@.take(2 * i + 2);
        assert(t.take(t.len() - 2) == s@.take(2 * i as int));
        assert(t[t.len() - 2] == hi && t.last() == lo);
        if !(('0' <= hi && hi <= '9') || ('a' <= hi && hi <= 'f')) || !(('0' <= lo && lo <= '9') || ('a' <= lo && lo <= 'f')) {
            proof {
                lemma_hex_decoded_prefix_none(s@, 2 * i + 2);
            }
            return None;
        }
        let b = 16 * hex_digit_value(hi) + hex_digit_value(lo);
        out.push(b);
        i = i + 1;
    }
    assert(s@.take(2 * n as int) == s@);
    Some(out)
}

proof fn lemma_hex_decoded_odd(s: Seq<char>)
    requires
        s.len() % 2 == 1,
    ensures
        hex_decoded(s) is None,
    decreases s.len(),
{
    if s.len() >= 2 {
        lemma_hex_decoded_odd(s.take(s.len() - 2));
    }
}

/// A prefix that cannot be read (of even length) spoils the whole text.
proof fn lemma_hex_decoded_prefix_none(s: Seq<char>, k: int)
    requires
        0 <= k <= s.len(),
        k % 2 == 0,
        s.len() % 2 == 0,
        hex_decoded(s.take(k)) is None,
    ensures
        hex_decoded(s) is None,
    decreases s.len() - k,
{
    if k < s.len() {
        let t = s.take(k + 2);
        assert(t.take(t.len() - 2) == s.take(k));
        lemma_hex_decoded_prefix_none(s, k + 2);
    } else {
        assert(s.take(k) == s);
    }
}

/// Issues a session token for a user, valid for `TOKEN_TTL_SECONDS` from `now_secs`.
pub fn issue_token(secret: &str, sub: &str, email: &str, now_secs: u64) -> (r: String)
    requires
        now_secs <= u64::MAX - TOKEN_TTL_SECONDS,
    ensures
        r@ == token_text(secret.spec_bytes(), sub@, email@, (now_secs + TOKEN_TTL_SECONDS) as u64),
{
    issue_token_at(secret, sub, email, now_secs + TOKEN_TTL_SECONDS)
}

/// Checks a session token: it must be well formed, carry the signature the
/// secret gives its claims, and not have expired at `now_secs`; anything else
/// is unauthorized.
pub fn decode_token(secret: &str, token: &str, now_secs: u64) -> (r: Result<Claims, crate::error::ApiError>)
    ensures
        r is Ok <==> (read_token(token@) matches Some((s, e, x)) && token@ == token_text(
            secret.spec_bytes(),
            s,
            e,
            x,
        ) && x > now_secs),
        r matches Ok(c) ==> read_token(token@) == Some((c.sub@, c.email@, c.exp)),
        r matches Err(e) ==> e is Unauthorized,
{
    let t = crate::text::chars_of(token);
    let parts = crate::text::split_on(&t, '.');
    if parts.len() != 4 {
        return Err(crate::error::ApiError::Unauthorized);
    }
    proof {
        assert(crate::text::char_views(parts@)[0] == parts@[0]@);
        assert(crate::text::char_views(parts@)[1] == parts@[1]@);
        assert(crate::text::char_views(parts@)[2] == parts@[2]@);
    }
    let a = match hex_decode(&parts[0]) {
        Some(v) => v,
        None => return Err(crate::error::ApiError::Unauthorized),
    };
    let b = match hex_decode(&parts[1]) {
        Some(v) => v,
        None => return Err(crate::error::ApiError::Unauthorized),
    };
    let exp_text = crate::text::string_of(&parts[2]);
    let exp = match crate::config::parse_unsigned(exp_text.as_str(), u64::MAX) {
        Ok(x) => x,
        Err(_) => return Err(crate::error::ApiError::Unauthorized),
    };
    let sub = match crate::crypto::utf8_to_string(a) {
        Ok(s) => s,
        Err(_) => return Err(crate::error::ApiError::Unauthorized),
    };
    let email = match crate::crypto::utf8_to_string(b) {
        Ok(s) => s,
        Err(_) => return Err(crate::error::ApiError::Unauthorized),
    };
    let expected = issue_token_at(secret, sub.as_str(), email.as_str(), exp);
    if !crate::text::str_eq(expected.as_str(), token) {
        return Err(crate::error::ApiError::Unauthorized);
    }
    if exp <= now_secs {
        return Err(crate::error::ApiError::Unauthorized);
    }
    Ok(Claims { sub, email, exp })
}

/// The token text for the given claims and expiry.
fn issue_token_at(secret: &str, sub: &str, email: &str, exp: u64) -> (r: String)
    ensures
        r@ == token_text(secret.spec_bytes(), sub@, email@, exp),
{
    let a = crate::text::hex_encode(sub.as_bytes());
    let b = crate::text::hex_encode(email.as_bytes());
    let d = crate::text::u64_to_decimal(exp);
    let head = crate::text::concat3(a.as_str(), ".", b.as_str());
    let body = crate::text::concat3(head.as_str(), ".", d.as_str());
    let tag = crate::digest::sign_payload(secret, body.as_str().as_bytes());
    crate::text::concat3(body.as_str(), ".", tag.as_str())
}

} // verus!
