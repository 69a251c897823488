use vstd::prelude::*;
use vstd::string::StringSliceAdditionalSpecFns;
use crate::error::ApiError;
use crate::ids::{all_alnum, random_string, new_id, now_millis};
use crate::json::{JsonValue, JsonView, json_views, lemma_json_views};
use crate::names::{
    safe_original_name, extension_from_name, clean_original_name, is_invalid_file_name,
    simple_extension, name_stem, file_slug, slugify, stem_of, join_relative,
    is_invalid_upload_path, clean_folder,
};
use crate::text::{
    chars_of, string_of, seq_eq, to_lowercase, lowercase, trim_start_char, trim_start_char_exec,
    concat2, concat3, i64_to_decimal, decimal_int, is_lower_hex, opt_str_view,
};

verus! {

/// Whether `b` begins with the bytes `p`.
pub open spec fn bytes_start(b: Seq<u8>, p: Seq<u8>) -> bool {
    p.len() <= b.len() && b.take(p.len() as int) == p
}

/// The MIME type that a file's leading bytes reveal, for the formats the service recognises.
pub open spec fn spec_magic_mime(b: Seq<u8>) -> Option<Seq<char>> {
    if bytes_start(b, seq![0x89u8, 0x50u8, 0x4eu8, 0x47u8]) {
        Some("image/png"@)
    } else if bytes_start(b, seq![0xffu8, 0xd8u8, 0xffu8]) {
        Some("image/jpeg"@)
    } else if bytes_start(b, seq![0x47u8, 0x49u8, 0x46u8, 0x38u8, 0x37u8, 0x61u8])
        || bytes_start(b, seq![0x47u8, 0x49u8, 0x46u8, 0x38u8, 0x39u8, 0x61u8]) {
        Some("image/gif"@)
    } else if bytes_start(b, seq![0x25u8, 0x50u8, 0x44u8, 0x46u8, 0x2du8]) {
        Some("application/pdf"@)
    } else if b.len() >= 12 && b.subrange(0, 4) == seq![0x52u8, 0x49u8, 0x46u8, 0x46u8]
        && b.subrange(8, 12) == seq![0x57u8, 0x45u8, 0x42u8, 0x50u8] {
        Some("image/webp"@)
    } else {
        None
    }
}

fn starts_with_bytes(b: &[u8], p: &[u8]) -> (r: bool)
    ensures
        r == bytes_start(b@, p@),
{
    if p.len() > b.len() {
        return false;
    }
    let n = p.len();
    for i in 0..n
        invariant
            n == p@.len(),
            n <= b@.len(),
            forall|j: int| 0 <= j < i ==> b@[j] == p@[j],
    {
        if b[i] != p[i] {
            assert(b@.take(n as int)[i as int] != p@[i as int]);
            return false;
        }
    }
    assert(b@.take(n as int) =~= p@);
    true
}

/// Recognises PNG, JPEG, GIF, PDF and WebP by their leading bytes.
pub fn magic_mime(bytes: &[u8]) -> (r: Option<&'static str>)
    ensures
        r matches Some(m) ==> spec_magic_mime(bytes@) == Some(m@),
        r is None ==> spec_magic_mime(bytes@) is None,
{
    let png: [u8; 4] = [0x89, 0x50, 0x4e, 0x47];
    let jpeg: [u8; 3] = [0xff, 0xd8, 0xff];
    let gif7: [u8; 6] = [0x47, 0x49, 0x46, 0x38, 0x37, 0x61];
    let gif9: [u8; 6] = [0x47, 0x49, 0x46, 0x38, 0x39, 0x61];
    let pdf: [u8; 5] = [0x25, 0x50, 0x44, 0x46, 0x2d];
    assert(png@ == seq![0x89u8, 0x50u8, 0x4eu8, 0x47u8]);
    assert(jpeg@ == seq![0xffu8, 0xd8u8, 0xffu8]);
    assert(gif7@ == seq![0x47u8, 0x49u8, 0x46u8, 0x38u8, 0x37u8, 0x61u8]);
    assert(gif9@ == seq![0x47u8, 0x49u8, 0x46u8, 0x38u8, 0x39u8, 0x61u8]);
    assert(pdf@ == seq![0x25u8, 0x50u8, 0x44u8, 0x46u8, 0x2du8]);
    if starts_with_bytes(bytes, &png) {
        return Some("image/png");
    }
    if starts_with_bytes(bytes, &jpeg) {
        return Some("image/jpeg");
    }
    if starts_with_bytes(bytes, &gif7) || starts_with_bytes(bytes, &gif9) {
        return Some("image/gif");
    }
    if starts_with_bytes(bytes, &pdf) {
        return Some("application/pdf");
    }
    if bytes.len() >= 12 && bytes[0] == 0x52 && bytes[1] == 0x49 && bytes[2] == 0x46 && bytes[3]
        == 0x46 && bytes[8] == 0x57 && bytes[9] == 0x45 && bytes[10] == 0x42 && bytes[11] == 0x50 {
        assert(bytes@.subrange(0, 4) =~= seq![0x52u8, 0x49u8, 0x46u8, 0x46u8]);
        assert(bytes@.subrange(8, 12) =~= seq![0x57u8, 0x45u8, 0x42u8, 0x50u8]);
        return Some("image/webp");
    }
    proof {
        if bytes@.len() >= 12 && bytes@.subrange(0, 4) == seq![0x52u8, 0x49u8, 0x46u8, 0x46u8]
            && bytes@.subrange(8, 12) == seq![0x57u8, 0x45u8, 0x42u8, 0x50u8] {
            assert(bytes@[0] == bytes@.subrange(0, 4)[0]);
            assert(bytes@[1] == bytes@.subrange(0, 4)[1]);
            assert(bytes@[2] == bytes@.subrange(0, 4)[2]);
            assert(bytes@[3] == bytes@.subrange(0, 4)[3]);
            assert(bytes@[8] == bytes@.subrange(8, 12)[0]);
            assert(bytes@[9] == bytes@.subrange(8, 12)[1]);
            assert(bytes@[10] == bytes@.subrange(8, 12)[2]);
            assert(bytes@[11] == bytes@.subrange(8, 12)[3]);
        }
    }
    None
}

/// The lowercased texts of a list of JSON values, when all of them are strings.
pub open spec fn lowered_strings(items: Seq<JsonView>) -> Option<Seq<Seq<char>>>
    decreases items.len(),
{
    if items.len() == 0 {
        Some(Seq::empty())
    } else {
        match lowered_strings(items.drop_last()) {
            None => None,
            Some(prev) => match items.last().str_view() {
                Some(s) => Some(prev.push(lowercase(s))),
                None => None,
            },
        }
    }
}

/// A preset rule list: the lowercased strings of a JSON array, or the message of the refusal.
pub open spec fn spec_string_array(value: JsonView) -> Result<Seq<Seq<char>>, Seq<char>> {
    match value {
        JsonView::Array(items) => match lowered_strings(items) {
            Some(list) => Ok(list),
            None => Err("preset rules must contain strings"@),
        },
        _ => Err("preset rules must be arrays"@),
    }
}

/// The views of a list of strings.
pub open spec fn views(v: Seq<String>) -> Seq<Seq<char>> {
    v.map_values(|s: String| s@)
}

/// Reads a preset rule list: a JSON array of strings, lowercased.
pub fn string_array(value: &JsonValue) -> (r: Result<Vec<String>, ApiError>)
    ensures
        r matches Ok(v) ==> spec_string_array(value@) == Ok::<Seq<Seq<char>>, Seq<char>>(views(v@)),
        r matches Err(e) ==> (spec_string_array(value@) matches Err(m) && e.is_validation(m)),
{
    match value {
        JsonValue::Array(items) => {
            let mut out: Vec<String> = Vec::new();
            let n = items.len();
            let ghost vs = json_views(items@);
            proof {
                lemma_json_views(items@);
                assert(vs.take(0) =~= Seq::<JsonView>::empty());
                assert(views(out@) =~= Seq::<Seq<char>>::empty());
            }
            for i in 0..n
                invariant
                    n == items@.len(),
                    vs == json_views(items@),
                    vs.len() == n,
                    forall|j: int| 0 <= j < n ==> #[trigger] vs[j] == items@[j]@,
                    value@ == JsonView::Array(vs),
                    lowered_strings(vs.take(i as int)) == Some(views(out@)),
            {
                proof {
                    assert(vs.take(i + 1).drop_last() == vs.take(i as int));
                    assert(vs.take(i + 1).last() == vs[i as int]);
                }
                match &items[i] {
                    JsonValue::Str(s) => {
                        let l = to_lowercase(s.as_str());
                        let ghost before = out@;
                        out.push(l);
                        assert(views(out@) == views(before).push(l@));
                    },
                    _ => {
                        proof {
                            lemma_lowered_strings_none(vs, i as int);
                        }
                        return Err(ApiError::validation("preset rules must contain strings"));
                    },
                }
            }
            assert(vs.take(n as int) == vs);
            Ok(out)
        },
        _ => Err(ApiError::validation("preset rules must be arrays")),
    }
}

proof fn lemma_lowered_strings_none(items: Seq<JsonView>, i: int)
    requires
        0 <= i < items.len(),
        items[i].str_view() is None,
    ensures
        lowered_strings(items) is None,
    decreases items.len(),
{
    if i < items.len() - 1 {
        assert(items.drop_last()[i] == items[i]);
        lemma_lowered_strings_none(items.drop_last(), i);
    }
}

/// The MIME type that `validate_mime` settles on, or the message of the refusal.
pub open spec fn spec_validate_mime(
    allowed: JsonView,
    content_type: Option<Seq<char>>,
    bytes: Seq<u8>,
) -> Result<Seq<char>, Seq<char>> {
    let mime = match content_type {
        Some(ct) => lowercase(ct),
        None => "application/octet-stream"@,
    };
    let magic = spec_magic_mime(bytes);
    if magic is Some && mime != "application/octet-stream"@ && mime != magic->0 {
        Err("file content does not match MIME type"@)
    } else {
        let effective = match magic {
            Some(m) => m,
            None => mime,
        };
        match spec_string_array(allowed) {
            Err(m) => Err(m),
            Ok(list) => if list.len() > 0 && !list.contains(effective) {
                Err("MIME type is not allowed by preset"@)
            } else {
                Ok(effective)
            },
        }
    }
}

fn list_contains(list: &Vec<String>, item: &[char]) -> (r: bool)
    ensures
        r == views(list@).contains(item@),
{
    let n = list.len();
    for i in 0..n
        invariant
            n == list@.len(),
            forall|j: int| 0 <= j < i ==> list@[j]@ != item@,
    {
        let c = chars_of(list[i].as_str());
        if seq_eq(&c, item) {
            assert(views(list@)[i as int] == item@);
            return true;
        }
    }
    proof {
        if views(list@).contains(item@) {
            let j = choose|j: int| 0 <= j < views(list@).len() && views(list@)[j] == item@;
            assert(list@[j]@ == item@);
        }
    }
    false
}

/// A preset's MIME list is obeyed: whatever type is accepted is the effective type (the type
/// the leading bytes reveal, else the declared type lowercased, else
/// `application/octet-stream`), and it is in the preset's list unless that list is empty; when
/// the list is non-empty and lacks the effective type, the upload is refused with "MIME type
/// is not allowed by preset" (unless the declared type already contradicts the content),
/// whether or not the leading bytes were recognised.
pub proof fn law_mime_must_be_listed(allowed: JsonView, content_type: Option<Seq<char>>, bytes: Seq<u8>)
    ensures
        ({
            let declared = match content_type {
                Some(ct) => lowercase(ct),
                None => "application/octet-stream"@,
            };
            let effective = match spec_magic_mime(bytes) {
                Some(m) => m,
                None => declared,
            };
            let contradicts = spec_magic_mime(bytes) matches Some(m) && declared != "application/octet-stream"@
                && declared != m;
            &&& spec_validate_mime(allowed, content_type, bytes) matches Ok(m) ==> {
                &&& m == effective
                &&& spec_string_array(allowed) matches Ok(list) && (list.len() == 0 || list.contains(m))
            }
            &&& (!contradicts && spec_string_array(allowed) is Ok && spec_string_array(allowed)->Ok_0.len() > 0
                && !spec_string_array(allowed)->Ok_0.contains(effective)) ==> spec_validate_mime(
                allowed,
                content_type,
                bytes,
            ) == Err::<Seq<char>, Seq<char>>("MIME type is not allowed by preset"@)
        }),
{
}

/// Settles the MIME type of an upload: the type its leading bytes reveal must agree with a
/// declared type (unless that is the generic `application/octet-stream`), the revealed type
/// wins, and the preset's list, when non-empty, must allow it.
pub fn validate_mime(allowed: &JsonValue, content_type: Option<&str>, bytes: &[u8]) -> (r: Result<
    String,
    ApiError,
>)
    ensures
        r matches Ok(s) ==> spec_validate_mime(allowed@, opt_str_view(content_type), bytes@)
            == Ok::<Seq<char>, Seq<char>>(s@),
        r matches Err(e) ==> (spec_validate_mime(allowed@, opt_str_view(content_type), bytes@) matches Err(m)
            && e.is_validation(m)),
        r matches Ok(s) ==> (spec_string_array(allowed@) matches Ok(list) && (list.len() == 0 || list.contains(
            s@,
        ))),
{
    proof {
        law_mime_must_be_listed(allowed@, opt_str_view(content_type), bytes@);
    }
    let mime: String = match content_type {
        Some(ct) => to_lowercase(ct),
        None => "application/octet-stream".to_owned(),
    };
    let mime_chars = chars_of(mime.as_str());
    let generic = chars_of("application/octet-stream");
    let magic = magic_mime(bytes);
    let effective: String = match magic {
        Some(m) => {
            let mc = chars_of(m);
            if !seq_eq(&mime_chars, &generic) && !seq_eq(&mime_chars, &mc) {
                return Err(ApiError::validation("file content does not match MIME type"));
            }
            m.to_owned()
        },
        None => mime,
    };
    let list = string_array(allowed)?;
    let eff = chars_of(effective.as_str());
    if list.len() > 0 && !list_contains(&list, &eff) {
        return Err(ApiError::validation("MIME type is not allowed by preset"));
    }
    Ok(effective)
}

/// Whether a preset's extension list admits `extension` (entries may carry leading dots).
pub open spec fn extension_listed(list: Seq<Seq<char>>, extension: Seq<char>) -> bool {
    exists|i: int| 0 <= i < list.len() && trim_start_char(#[trigger] list[i], '.') == extension
}

/// The outcome of checking an extension against a preset: `Ok` or the refusal's message.
pub open spec fn spec_validate_extension(allowed: JsonView, extension: Seq<char>) -> Result<
    (),
    Seq<char>,
> {
    match spec_string_array(allowed) {
        Err(m) => Err(m),
        Ok(list) => if list.len() == 0 || extension_listed(list, extension) {
            Ok(())
        } else {
            Err("file extension is not allowed by preset"@)
        },
    }
}

/// Checks a file extension against a preset's list; an empty list admits every extension.
pub fn validate_extension(allowed: &JsonValue, extension: &str) -> (r: Result<(), ApiError>)
    ensures
        r is Ok <==> spec_validate_extension(allowed@, extension@) is Ok,
        r matches Err(e) ==> (spec_validate_extension(allowed@, extension@) matches Err(m)
            && e.is_validation(m)),
{
    let list = string_array(allowed)?;
    if list.len() == 0 {
        return Ok(());
    }
    let ext = chars_of(extension);
    let n = list.len();
    for i in 0..n
        invariant
            n == list@.len(),
            ext@ == extension@,
            spec_string_array(allowed@) == Ok::<Seq<Seq<char>>, Seq<char>>(views(list@)),
            forall|j: int| 0 <= j < i ==> trim_start_char(views(list@)[j], '.') != extension@,
    {
        let c = chars_of(list[i].as_str());
        let t = trim_start_char_exec(&c, '.');
        if seq_eq(&t, &ext) {
            assert(trim_start_char(views(list@)[i as int], '.') == extension@);
            return Ok(());
        }
    }
    Err(ApiError::validation("file extension is not allowed by preset"))
}

} // verus!

verus! {

/// Whether `s` is the text of the literal `lit`.
pub fn is_literal(s: &str, lit: &str) -> (r: bool)
    ensures
        r == (s@ == lit@),
{
    let a = chars_of(s);
    let b = chars_of(lit);
    seq_eq(&a, &b)
}

/// The stored name of an upload, given the strategy, the original name, the extension, the
/// content hash, and the random parts that some strategies use (a simple UUID, a timestamp in
/// milliseconds, and random strings of eight and twenty characters).
pub open spec fn spec_saved_name(
    strategy: Seq<char>,
    original: Seq<char>,
    extension: Seq<char>,
    hash: Seq<char>,
    uuid: Seq<char>,
    millis: int,
    short: Seq<char>,
    long: Seq<char>,
) -> Seq<char> {
    let dot_ext = "."@ + extension;
    if strategy == "uuid"@ {
        uuid + dot_ext
    } else if strategy == "hash"@ {
        hash + dot_ext
    } else if strategy == "timestamp_random"@ {
        decimal_int(millis) + "-"@ + short + dot_ext
    } else if strategy == "random"@ {
        long + dot_ext
    } else {
        file_slug(name_stem(original)) + "-"@ + short + dot_ext
    }
}

/// Builds a stored name from its parts; see `spec_saved_name`.
pub fn saved_name_from(
    strategy: &str,
    original: &str,
    extension: &str,
    hash: &str,
    uuid: &str,
    millis: i64,
    short: &str,
    long: &str,
) -> (r: String)
    ensures
        r@ == spec_saved_name(strategy@, original@, extension@, hash@, uuid@, millis as int, short@, long@),
{
    let dot_ext = concat2(".", extension);
    if is_literal(strategy, "uuid") {
        concat2(uuid, dot_ext.as_str())
    } else if is_literal(strategy, "hash") {
        concat2(hash, dot_ext.as_str())
    } else if is_literal(strategy, "timestamp_random") {
        let ts = i64_to_decimal(millis);
        let head = concat3(ts.as_str(), "-", short);
        concat2(head.as_str(), dot_ext.as_str())
    } else if is_literal(strategy, "random") {
        concat2(long, dot_ext.as_str())
    } else {
        let stem = stem_of(original);
        let slug = slugify(stem.as_str());
        let head = concat3(slug.as_str(), "-", short);
        concat2(head.as_str(), dot_ext.as_str())
    }
}

/// The random parts that a stored name may draw on have the shapes the generators give.
pub open spec fn saved_name_parts_ok(uuid: Seq<char>, short: Seq<char>, long: Seq<char>) -> bool {
    &&& uuid.len() == 32
    &&& forall|i: int| 0 <= i < uuid.len() ==> is_lower_hex(#[trigger] uuid[i])
    &&& short.len() == 8
    &&& all_alnum(short)
    &&& long.len() == 20
    &&& all_alnum(long)
}

/// Generates the stored name of an upload with the preset's filename strategy, drawing fresh
/// random parts and the current time where the strategy needs them.
pub fn generate_saved_name(strategy: &str, original: &str, extension: &str, hash: &str) -> (r:
    String)
    ensures
        exists|uuid: Seq<char>, millis: int, short: Seq<char>, long: Seq<char>|
            saved_name_parts_ok(uuid, short, long) && r@ == spec_saved_name(
                strategy@,
                original@,
                extension@,
                hash@,
                uuid,
                millis,
                short,
                long,
            ),
{
    let ghost zeros32 = Seq::new(32nat, |i: int| '0');
    let ghost zeros8 = Seq::new(8nat, |i: int| '0');
    let ghost zeros20 = Seq::new(20nat, |i: int| '0');
    let ghost mut uuid_v = zeros32;
    let ghost mut short_v = zeros8;
    let ghost mut long_v = zeros20;
    let ghost mut millis_v: int = 0;
    let r = if is_literal(strategy, "uuid") {
        let u = crate::ids::uuid_v4_simple();
        proof {
            uuid_v = u@;
        }
        saved_name_from(strategy, original, extension, hash, u.as_str(), 0, "", "")
    } else if is_literal(strategy, "hash") {
        saved_name_from(strategy, original, extension, hash, "", 0, "", "")
    } else if is_literal(strategy, "timestamp_random") {
        let m = now_millis();
        let s = random_string(8);
        proof {
            millis_v = m as int;
            short_v = s@;
        }
        saved_name_from(strategy, original, extension, hash, "", m, s.as_str(), "")
    } else if is_literal(strategy, "random") {
        let l = random_string(20);
        proof {
            long_v = l@;
        }
        saved_name_from(strategy, original, extension, hash, "", 0, "", l.as_str())
    } else {
        let s = random_string(8);
        proof {
            short_v = s@;
        }
        saved_name_from(strategy, original, extension, hash, "", 0, s.as_str(), "")
    };
    proof {
        assert(saved_name_parts_ok(uuid_v, short_v, long_v));
        assert(r@ == spec_saved_name(strategy@, original@, extension@, hash@, uuid_v, millis_v, short_v, long_v));
    }
    r
}

} // verus!

verus! {

/// The upload rules of a preset that an incoming file is checked against.
pub struct PresetRules {
    pub max_file_size: i64,
    pub allowed_mime_types: JsonValue,
    pub allowed_extensions: JsonValue,
}

/// The upload rules that a signed upload session adds.
pub struct SessionRules {
    pub allowed_mime_types: JsonValue,
    pub max_file_size: i64,
}

/// An incoming file that passed the checks: its size, cleaned name, extension and MIME type.
pub struct AcceptedUpload {
    pub size: i64,
    pub original_name: String,
    pub extension: String,
    pub mime_type: String,
}

/// The outcome of checking an incoming file: size, name, extension and MIME type, or the
/// message of the validation error.
pub open spec fn spec_check_upload(
    preset: PresetRules,
    session: Option<&SessionRules>,
    server_max: u64,
    size: u64,
    filename: Seq<char>,
    content_type: Option<Seq<char>>,
    magic: Seq<u8>,
) -> Result<(int, Seq<char>, Seq<char>, Seq<char>), Seq<char>> {
    if size > i64::MAX {
        Err("file is too large"@)
    } else if size == 0 {
        Err("file is required"@)
    } else if size > preset.max_file_size {
        Err("file exceeds preset max_file_size"@)
    } else if size > server_max {
        Err("file exceeds server max upload size"@)
    } else {
        let name = clean_original_name(filename);
        if is_invalid_file_name(name) {
            Err("filename is invalid"@)
        } else {
            match simple_extension(name) {
                None => Err("file must have a simple extension"@),
                Some(ext) => match spec_validate_extension(preset.allowed_extensions@, ext) {
                    Err(m) => Err(m),
                    Ok(_) => match spec_validate_mime(preset.allowed_mime_types@, content_type, magic) {
                        Err(m) => Err(m),
                        Ok(mime) => match session {
                            None => Ok((size as int, name, ext, mime)),
                            Some(rules) => match spec_validate_mime(
                                rules.allowed_mime_types@,
                                Some(mime),
                                magic,
                            ) {
                                Err(m) => Err(m),
                                Ok(_) => if size > rules.max_file_size {
                                    Err("file exceeds upload session max_file_size"@)
                                } else {
                                    Ok((size as int, name, ext, mime))
                                },
                            },
                        },
                    },
                },
            }
        }
    }
}

/// Checks an incoming file against the preset, the session (for a signed upload) and the
/// server's size limit, in the order the service applies them.
pub fn check_upload(
    preset: &PresetRules,
    session: Option<&SessionRules>,
    server_max: u64,
    size: u64,
    filename: &str,
    content_type: Option<&str>,
    magic: &[u8],
) -> (r: Result<AcceptedUpload, ApiError>)
    ensures
        r matches Ok(a) ==> spec_check_upload(
            *preset,
            session,
            server_max,
            size,
            filename@,
            opt_str_view(content_type),
            magic@,
        ) == Ok::<(int, Seq<char>, Seq<char>, Seq<char>), Seq<char>>(
            (a.size as int, a.original_name@, a.extension@, a.mime_type@),
        ),
        r matches Err(e) ==> (spec_check_upload(
            *preset,
            session,
            server_max,
            size,
            filename@,
            opt_str_view(content_type),
            magic@,
        ) matches Err(m) && e.is_validation(m)),
{
    if size > 9223372036854775807u64 {
        return Err(ApiError::validation("file is too large"));
    }
    let size_i = size as i64;
    if size_i <= 0 {
        return Err(ApiError::validation("file is required"));
    }
    if size_i > preset.max_file_size {
        return Err(ApiError::validation("file exceeds preset max_file_size"));
    }
    if size > server_max {
        return Err(ApiError::validation("file exceeds server max upload size"));
    }
    let original_name = safe_original_name(filename)?;
    let extension = extension_from_name(original_name.as_str())?;
    validate_extension(&preset.allowed_extensions, extension.as_str())?;
    let mime = validate_mime(&preset.allowed_mime_types, content_type, magic)?;
    match session {
        None => {},
        Some(rules) => {
            let _ = validate_mime(&rules.allowed_mime_types, Some(mime.as_str()), magic)?;
            if size_i > rules.max_file_size {
                return Err(ApiError::validation("file exceeds upload session max_file_size"));
            }
        },
    }
    Ok(AcceptedUpload { size: size_i, original_name, extension, mime_type: mime })
}

/// Checks the size of the file that processing produced, returning it as a signed size.
pub fn check_processed_size(len: usize, preset_max: i64, server_max: u64) -> (r: Result<
    i64,
    ApiError,
>)
    ensures
        r matches Ok(n) ==> n == len && len <= preset_max && len <= server_max,
        r matches Err(e) ==> if len > i64::MAX {
            e.is_validation("processed file is too large"@)
        } else if len > preset_max {
            e.is_validation("processed file exceeds preset max_file_size"@)
        } else {
            len > server_max && e.is_validation("processed file exceeds server max upload size"@)
        },
{
    if len as u128 > 9223372036854775807u128 {
        return Err(ApiError::validation("processed file is too large"));
    }
    let n = len as i64;
    if n > preset_max {
        return Err(ApiError::validation("processed file exceeds preset max_file_size"));
    }
    if n as u64 > server_max {
        return Err(ApiError::validation("processed file exceeds server max upload size"));
    }
    Ok(n)
}

/// What happens to an upload whose content matches a file already uploaded to the project.
#[derive(Debug)]
pub enum DuplicateAction {
    ReturnExisting,
    Reject,
    UploadNewCopy,
}

/// The preset's duplicate strategy, read as an action: `return_existing` and
/// `reject_duplicate` are recognised, anything else uploads a new copy.
pub fn duplicate_action(strategy: &str) -> (r: DuplicateAction)
    ensures
        r is ReturnExisting <==> strategy@ == "return_existing"@,
        r is Reject <==> strategy@ == "reject_duplicate"@,
{
    proof {
        reveal_strlit("return_existing");
        reveal_strlit("reject_duplicate");
        assert("return_existing"@.len() != "reject_duplicate"@.len());
    }
    if is_literal(strategy, "return_existing") {
        DuplicateAction::ReturnExisting
    } else if is_literal(strategy, "reject_duplicate") {
        DuplicateAction::Reject
    } else {
        DuplicateAction::UploadNewCopy
    }
}

/// The content hash recorded for an upload: the hash of the bytes as received when no
/// processing happened, otherwise the hex SHA-256 of the processed bytes.
pub fn upload_hash(processed: bool, input_hash: &str, bytes: &[u8]) -> (r: String)
    ensures
        !processed ==> r@ == input_hash@,
        processed ==> r@ == crate::digest::hex_sha256(bytes@),
{
    if processed {
        crate::digest::hex_digest(bytes)
    } else {
        input_hash.to_owned()
    }
}

/// Files stored beside an upload.
#[derive(Debug)]
pub enum Companion {
    Original,
    Thumbnail,
}

/// The subfolder and name suffix of a companion file.
pub open spec fn companion_parts(kind: Companion) -> (Seq<char>, Seq<char>) {
    match kind {
        Companion::Original => ("/originals"@, "-original."@),
        Companion::Thumbnail => ("/thumbnails"@, "-thumb."@),
    }
}

/// The folder and file name of a companion file, before they are joined.
pub open spec fn companion_location(
    folder: Seq<char>,
    saved_name: Seq<char>,
    kind: Companion,
    extension: Seq<char>,
) -> (Seq<char>, Seq<char>) {
    (folder + companion_parts(kind).0, name_stem(saved_name) + companion_parts(kind).1 + extension)
}

/// The path of the preserved original or the thumbnail of an upload: in the `originals` or
/// `thumbnails` subfolder, named after the stored name's stem.
pub fn companion_path(folder: &str, saved_name: &str, kind: Companion, extension: &str) -> (r:
    Result<String, ApiError>)
    ensures
        ({
            let (f, n) = companion_location(folder@, saved_name@, kind, extension@);
            &&& r matches Ok(s) ==> !is_invalid_upload_path(f, n) && s@ == clean_folder(f) + "/"@ + n
            &&& r matches Err(e) ==> is_invalid_upload_path(f, n) && e.is_validation(
                "upload path is invalid"@,
            )
        }),
{
    let stem = stem_of(saved_name);
    let (sub, suffix) = match kind {
        Companion::Original => ("/originals", "-original."),
        Companion::Thumbnail => ("/thumbnails", "-thumb."),
    };
    let dir = concat2(folder, sub);
    let name = concat3(stem.as_str(), suffix, extension);
    join_relative(dir.as_str(), name.as_str())
}

} // verus!

verus! {

/// The lifetime of a signed upload session in seconds: the requested one (900 when absent),
/// clamped to one minute .. one hour.
pub fn session_lifetime_seconds(requested: Option<i64>) -> (r: i64)
    ensures
        r == match requested {
            Some(x) => if x < 60 {
                60
            } else if x > 3600 {
                3600
            } else {
                x
            },
            None => 900,
        },
        60 <= r <= 3600,
{
    let x = match requested {
        Some(x) => x,
        None => 900,
    };
    if x < 60 {
        60
    } else if x > 3600 {
        3600
    } else {
        x
    }
}

/// The URL a client posts a signed upload to: the application URL without trailing slashes,
/// then `/uploads/` and the session id.
pub fn upload_url(app_url: &str, session_id: &str) -> (r: String)
    ensures
        r@ == crate::text::trim_end_char(app_url@, '/') + "/uploads/"@ + session_id@,
{
    let base = crate::text::trim_end_char_exec(&chars_of(app_url), '/');
    concat3(string_of(&base).as_str(), "/uploads/", session_id)
}

/// A fresh signed-upload token: `fb_upload_` followed by 48 random ASCII letters and digits.
pub fn upload_token() -> (r: String)
    ensures
        r@.len() == 58,
        r@.subrange(0, 10) == "fb_upload_"@,
        all_alnum(r@.subrange(10, 58)),
{
    let tail = random_string(48);
    let r = concat2("fb_upload_", tail.as_str());
    proof {
        reveal_strlit("fb_upload_");
        assert(r@.subrange(0, 10) == "fb_upload_"@);
        assert(r@.subrange(10, 58) == tail@);
    }
    r
}

/// Whether a signed upload session admits an upload: the presented token
/// hashes to the stored hash, the session is unused, and it has not expired.
pub open spec fn session_admits(
    stored_token_hash: Seq<char>,
    token: Seq<u8>,
    used: bool,
    expires_at_nanos: i128,
    now_nanos: i128,
) -> bool {
    stored_token_hash == crate::digest::hex_sha256(token) && !used && expires_at_nanos >= now_nanos
}

/// A session stores the hash of the token it hands out, so that token admits
/// one upload until the session expires; any token with a different hash is
/// refused.
pub proof fn law_session_token_admits(token: Seq<u8>, other: Seq<u8>, expires_at_nanos: i128, now_nanos: i128)
    ensures
        session_admits(crate::digest::hex_sha256(token), token, false, expires_at_nanos, now_nanos)
            <==> expires_at_nanos >= now_nanos,
        !session_admits(crate::digest::hex_sha256(token), token, true, expires_at_nanos, now_nanos),
        crate::digest::hex_sha256(other) != crate::digest::hex_sha256(token) ==> !session_admits(
            crate::digest::hex_sha256(token),
            other,
            false,
            expires_at_nanos,
            now_nanos,
        ),
{
}

/// The checks on a signed upload session, in order: the presented token must hash to the
/// stored hash, the session must be unused, and it must not have expired (times in
/// nanoseconds since the Unix epoch).
pub fn check_upload_session(
    stored_token_hash: &str,
    token: &str,
    used: bool,
    expires_at_nanos: i128,
    now_nanos: i128,
) -> (r: Result<(), ApiError>)
    ensures
        r is Ok <==> session_admits(stored_token_hash@, token.spec_bytes(), used, expires_at_nanos, now_nanos),
        r matches Err(e) ==> if stored_token_hash@ != crate::digest::hex_sha256(token.spec_bytes()) {
            e is Unauthorized
        } else if used {
            e.is_conflict("upload session has already been used"@)
        } else {
            e is Unauthorized
        },
{
    let presented = crate::digest::hash_secret(token);
    if !is_literal(stored_token_hash, presented.as_str()) {
        return Err(ApiError::Unauthorized);
    }
    if used {
        return Err(ApiError::conflict("upload session has already been used"));
    }
    if expires_at_nanos < now_nanos {
        return Err(ApiError::Unauthorized);
    }
    Ok(())
}

/// The project an API-key upload goes to: the requested one, which must be the key's own,
/// or the key's project when none is requested.
pub fn resolve_project(requested: Option<&str>, key_project: &str) -> (r: Result<String, ApiError>)
    ensures
        r matches Ok(p) ==> p@ == key_project@,
        r is Ok <==> (requested is None || requested->0@ == key_project@),
        r matches Err(e) ==> e is Forbidden,
{
    match requested {
        Some(p) => if is_literal(p, key_project) {
            Ok(key_project.to_owned())
        } else {
            Err(ApiError::Forbidden)
        },
        None => Ok(key_project.to_owned()),
    }
}

/// Refuses access across projects: two project ids must agree.
pub fn ensure_same_project(owner_project: &str, project: &str) -> (r: Result<(), ApiError>)
    ensures
        r is Ok <==> owner_project@ == project@,
        r matches Err(e) ==> e is Forbidden,
{
    if is_literal(owner_project, project) {
        Ok(())
    } else {
        Err(ApiError::Forbidden)
    }
}

/// The API secret a request presents: the `x-api-key` header, or else a bearer token from the
/// `authorization` header.
pub fn extract_bearer_or_key(x_api_key: Option<&str>, authorization: Option<&str>) -> (r: Option<
    String,
>)
    ensures
        x_api_key matches Some(k) ==> (r matches Some(s) && s@ == k@),
        (x_api_key is None && r is Some) ==> (authorization is Some && crate::text::starts_with(
            authorization->0@,
            "Bearer "@,
        ) && r->0@ == authorization->0@.skip(7)),
        r is None <==> (x_api_key is None && (authorization is None || !crate::text::starts_with(
            authorization->0@,
            "Bearer "@,
        ))),
{
    proof {
        reveal_strlit("Bearer ");
    }
    match x_api_key {
        Some(k) => {
            let owned: String = k.to_owned();
            assert(owned@ == k@);
            Some(owned)
        },
        None => match authorization {
            Some(a) => crate::http::strip_prefix(a, "Bearer "),
            None => None,
        },
    }
}

} // verus!

verus! {

/// A request for a signed upload session.
pub struct SignRequest {
    pub project_id: Option<String>,
    pub preset_id: Option<String>,
    pub preset: Option<String>,
    pub expires_in_seconds: Option<i64>,
}

/// A signed upload session as the API hands it out.
pub struct UploadSessionView {
    pub id: String,
    pub project_id: String,
    pub preset_id: String,
    pub upload_url: String,
    pub token: String,
    pub expires_at: String,
}

/// A stored file as an upload reports it.
pub struct FileView {
    pub id: String,
    pub project_id: String,
    pub storage_connection_id: String,
    pub original_name: String,
    pub saved_name: String,
    pub mime_type: String,
    pub extension: String,
    pub size: i64,
    pub hash: String,
    pub folder: String,
    pub path: String,
    pub url: String,
    pub status: String,
    pub duplicate: bool,
    pub duplicate_of_file_id: Option<String>,
    pub created_at: String,
}

} // verus!

verus! {

/// A JSON string, or null when absent.
pub open spec fn opt_str_json(o: Option<Seq<char>>) -> JsonView {
    match o {
        Some(s) => JsonView::Str(s),
        None => JsonView::Null,
    }
}

/// Where a companion file was stored, with its type.
pub struct StoredCompanion {
    pub path: String,
    pub url: String,
    pub mime_type: String,
    pub extension: String,
    pub size: u64,
    pub dimensions: Option<(u32, u32)>,
}

/// The metadata recorded for a stored companion file: its path, URL, MIME
/// type and extension, its size, and for a thumbnail its width and height.
pub open spec fn companion_fields(c: StoredCompanion) -> Seq<(Seq<char>, JsonView)> {
    let base = seq![
        ("path"@, JsonView::Str(c.path@)),
        ("url"@, JsonView::Str(c.url@)),
        ("mimeType"@, JsonView::Str(c.mime_type@)),
        ("extension"@, JsonView::Str(c.extension@)),
    ];
    match c.dimensions {
        Some((w, h)) => base + seq![
            ("width"@, JsonView::Number(crate::text::decimal(w as nat))),
            ("height"@, JsonView::Number(crate::text::decimal(h as nat))),
            ("size"@, JsonView::Number(crate::text::decimal(c.size as nat))),
        ],
        None => base.push(("size"@, JsonView::Number(crate::text::decimal(c.size as nat)))),
    }
}

/// The metadata of an optional companion: its fields, or null.
pub open spec fn companion_json(c: Option<StoredCompanion>) -> JsonView {
    match c {
        Some(c) => JsonView::Object(companion_fields(c)),
        None => JsonView::Null,
    }
}

fn companion_value(c: &Option<StoredCompanion>) -> (r: JsonValue)
    ensures
        r@ == companion_json(*c),
{
    match c {
        None => JsonValue::Null,
        Some(c) => {
            let mut fields = vec![
                crate::json::member("path", crate::json::string_json(c.path.as_str())),
                crate::json::member("url", crate::json::string_json(c.url.as_str())),
                crate::json::member("mimeType", crate::json::string_json(c.mime_type.as_str())),
                crate::json::member("extension", crate::json::string_json(c.extension.as_str())),
            ];
            match c.dimensions {
                Some((w, h)) => {
                    fields.push(crate::json::member("width", crate::json::number_json(w as u64)));
                    fields.push(crate::json::member("height", crate::json::number_json(h as u64)));
                },
                None => {},
            }
            fields.push(crate::json::member("size", crate::json::number_json(c.size)));
            proof {
                crate::json::lemma_field_views(fields@);
                assert(crate::json::field_views(fields@) =~= companion_fields(*c));
            }
            crate::json::object(fields)
        },
    }
}

/// The metadata recorded with a stored file: its preset, its upload session (or
/// null), what processing recorded, and its stored original and thumbnail (or
/// null).
pub open spec fn spec_upload_metadata(
    preset_id: Seq<char>,
    session_id: Option<Seq<char>>,
    transformations: JsonView,
    original: Option<StoredCompanion>,
    thumbnail: Option<StoredCompanion>,
) -> JsonView {
    JsonView::Object(seq![
        ("presetId"@, JsonView::Str(preset_id)),
        ("sessionId"@, opt_str_json(session_id)),
        ("transformations"@, transformations),
        ("original"@, companion_json(original)),
        ("thumbnail"@, companion_json(thumbnail)),
    ])
}

/// The metadata recorded with a stored file.
pub fn upload_metadata(
    preset_id: &str,
    session_id: Option<&str>,
    transformations: JsonValue,
    original: Option<StoredCompanion>,
    thumbnail: Option<StoredCompanion>,
) -> (r: JsonValue)
    ensures
        r@ == spec_upload_metadata(preset_id@, opt_str_view(session_id), transformations@, original, thumbnail),
{
    let session = match session_id {
        Some(s) => crate::json::string_json(s),
        None => JsonValue::Null,
    };
    let ghost tv = transformations@;
    let fields = vec![
        crate::json::member("presetId", crate::json::string_json(preset_id)),
        crate::json::member("sessionId", session),
        crate::json::member("transformations", transformations),
        crate::json::member("original", companion_value(&original)),
        crate::json::member("thumbnail", companion_value(&thumbnail)),
    ];
    proof {
        crate::json::lemma_field_views(fields@);
        assert(crate::json::field_views(fields@) =~= seq![
            ("presetId"@, JsonView::Str(preset_id@)),
            ("sessionId"@, opt_str_json(opt_str_view(session_id))),
            ("transformations"@, tv),
            ("original"@, companion_json(original)),
            ("thumbnail"@, companion_json(thumbnail)),
        ]);
    }
    crate::json::object(fields)
}

} // verus!

verus! {

/// How an upload names its preset.
#[derive(Debug)]
pub enum PresetSelector {
    ById(String),
    ByName(String),
}

/// How an upload names its preset: by id when given, else by name; one of
/// them is required.
pub fn preset_selector(preset_id: Option<String>, preset_name: Option<String>) -> (r: Result<PresetSelector, ApiError>)
    ensures
        preset_id matches Some(i) ==> (r matches Ok(s) && s == PresetSelector::ById(i)),
        preset_id is None ==> (preset_name matches Some(n) ==> (r matches Ok(s) && s == PresetSelector::ByName(n))),
        preset_id is None && preset_name is None ==> (r matches Err(e) && e.is_validation(
            "preset_id or preset is required"@,
        )),
{
    match preset_id {
        Some(i) => Ok(PresetSelector::ById(i)),
        None => match preset_name {
            Some(n) => Ok(PresetSelector::ByName(n)),
            None => Err(ApiError::validation("preset_id or preset is required")),
        },
    }
}

/// Admits the storage connection an upload goes to. When the preset names one,
/// `named_project` is that connection's project (`None`: no such connection),
/// and it must be the preset's. Otherwise `has_default` tells whether the
/// project has any connection, its oldest being used.
pub fn check_upload_connection(
    names_connection: bool,
    named_project: Option<&str>,
    preset_project: &str,
    has_default: bool,
) -> (r: Result<(), ApiError>)
    ensures
        names_connection ==> match named_project {
            None => r matches Err(e) && e is NotFound,
            Some(p) => if p@ == preset_project@ { r is Ok } else { r matches Err(e) && e is Forbidden },
        },
        !names_connection ==> if has_default {
            r is Ok
        } else {
            r matches Err(e) && e.is_validation("project has no storage connection"@)
        },
{
    if names_connection {
        match named_project {
            None => Err(ApiError::NotFound),
            Some(p) => if is_literal(p, preset_project) { Ok(()) } else { Err(ApiError::Forbidden) },
        }
    } else if has_default {
        Ok(())
    } else {
        Err(ApiError::validation("project has no storage connection"))
    }
}

} // verus!
