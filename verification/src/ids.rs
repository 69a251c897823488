use vstd::prelude::*;
use crate::text::{chars_of, concat3, is_lower_hex, spec_is_ascii_alnum, string_of};

verus! {

/// Draws `len` characters from `rand`'s `Alphanumeric` distribution; its documentation
/// says each is an ASCII letter or digit. Which characters come out is left open.
#[verifier::external_body]
fn sample_alphanumeric(len: usize) -> (r: Vec<char>)
    ensures
        r@.len() == len,
        forall|i: int| 0 <= i < r@.len() ==> spec_is_ascii_alnum(#[trigger] r@[i]),
{
    rand::Rng::sample_iter(rand::thread_rng(), &rand::distributions::Alphanumeric).take(len).map(char::from).collect()
}

/// Whether every character of `s` is an ASCII letter or digit.
pub open spec fn all_alnum(s: Seq<char>) -> bool {
    forall|i: int| 0 <= i < s.len() ==> spec_is_ascii_alnum(#[trigger] s[i])
}

/// A random string of `len` ASCII letters and digits.
pub fn random_string(len: usize) -> (r: String)
    ensures
        r@.len() == len,
        all_alnum(r@),
{
    let v = sample_alphanumeric(len);
    string_of(&v)
}

/// Formats a fresh `uuid::Uuid::new_v4()` with `simple()`: the crate writes its sixteen
/// bytes as thirty-two lowercase hexadecimal digits. Which identifier comes out is left open.
#[verifier::external_body]
pub(crate) fn uuid_v4_simple() -> (r: String)
    ensures
        r@.len() == 32,
        forall|i: int| 0 <= i < r@.len() ==> is_lower_hex(#[trigger] r@[i]),
{
    uuid::Uuid::new_v4().simple().to_string()
}

/// The identifiers this service hands out: a prefix, `_`, then 32 lowercase hex digits.
pub open spec fn is_id_with_prefix(id: Seq<char>, prefix: Seq<char>) -> bool {
    &&& id.len() == prefix.len() + 33
    &&& id.subrange(0, prefix.len() as int) == prefix
    &&& id[prefix.len() as int] == '_'
    &&& forall|i: int| prefix.len() < i < id.len() ==> is_lower_hex(#[trigger] id[i])
}

/// A fresh identifier `{prefix}_{uuid}`.
pub fn new_id(prefix: &str) -> (r: String)
    ensures
        is_id_with_prefix(r@, prefix@),
{
    let u = uuid_v4_simple();
    let r = concat3(prefix, "_", u.as_str());
    proof {
        reveal_strlit("_");
        assert(r@.subrange(0, prefix@.len() as int) == prefix@);
        assert forall|i: int| prefix@.len() < i < r@.len() implies is_lower_hex(#[trigger] r@[i]) by {
            assert(r@[i] == u@[i - prefix@.len() - 1]);
        }
    }
    r
}

/// The current time from `chrono::Utc::now()`, written by `to_rfc3339`.
/// Nothing is stated of it: it depends on the clock.
#[verifier::external_body]
pub(crate) fn now_rfc3339() -> String {
    chrono::Utc::now().to_rfc3339()
}

/// The current time from `chrono::Utc::now()` in milliseconds since the Unix epoch.
/// Nothing is stated of it: it depends on the clock.
#[verifier::external_body]
pub(crate) fn now_millis() -> i64 {
    chrono::Utc::now().timestamp_millis()
}

} // verus!
