use vstd::prelude::*;
use crate::error::ApiError;
use crate::ids::{all_alnum, random_string, new_id, now_millis};
use crate::text::{
    chars_of, string_of, seq_eq, contains_char, contains_exec, contains_seq, rfind_char,
    last_index_of, slice_vec, extend_chars, trim, trim_exec, trim_char, trim_char_exec,
    is_ascii_alnum, spec_is_ascii_alnum, lower_char, char_lowercase, to_lowercase, lowercase,
    is_ws, i64_to_decimal, decimal_int, is_lower_hex,
};

verus! {

/// What follows the last `/` or `\` of a name (all of it when there is none).
pub open spec fn after_separator(s: Seq<char>) -> Seq<char>
    decreases s.len(),
{
    if s.len() == 0 {
        s
    } else if s.last() == '/' || s.last() == '\\' {
        Seq::empty()
    } else {
        after_separator(s.drop_last()).push(s.last())
    }
}

/// The cleaned original file name: the last path segment, trimmed.
pub open spec fn clean_original_name(name: Seq<char>) -> Seq<char> {
    trim(after_separator(name))
}

/// Whether a cleaned file name is refused.
pub open spec fn is_invalid_file_name(name: Seq<char>) -> bool {
    name.len() == 0 || name == "."@ || name == ".."@
}

/// Nothing after the last separator is a separator.
proof fn lemma_after_separator_clean(s: Seq<char>)
    ensures
        forall|i: int| 0 <= i < after_separator(s).len() ==> #[trigger] after_separator(s)[i] != '/'
            && after_separator(s)[i] != '\\',
    decreases s.len(),
{
    if s.len() > 0 && !(s.last() == '/' || s.last() == '\\') {
        lemma_after_separator_clean(s.drop_last());
        let p = after_separator(s.drop_last());
        assert forall|i: int| 0 <= i < after_separator(s).len() implies #[trigger] after_separator(s)[i] != '/'
            && after_separator(s)[i] != '\\' by {
            if i < p.len() {
                assert(after_separator(s)[i] == p[i]);
            }
        }
    }
}

/// Trimming keeps only characters that were there.
proof fn lemma_trim_keeps(s: Seq<char>)
    ensures
        forall|i: int| 0 <= i < trim(s).len() ==> s.contains(#[trigger] trim(s)[i]),
{
    lemma_trim_start_keeps(s);
    lemma_trim_end_keeps(crate::text::trim_start(s));
    assert forall|i: int| 0 <= i < trim(s).len() implies s.contains(#[trigger] trim(s)[i]) by {
        let t = crate::text::trim_start(s);
        assert(t.contains(trim(s)[i]));
        let k = choose|k: int| 0 <= k < t.len() && t[k] == trim(s)[i];
        assert(s.contains(t[k]));
    }
}

proof fn lemma_trim_start_keeps(s: Seq<char>)
    ensures
        forall|i: int| 0 <= i < crate::text::trim_start(s).len() ==> s.contains(#[trigger] crate::text::trim_start(s)[i]),
    decreases s.len(),
{
    if s.len() > 0 && is_ws(s[0]) {
        let t = s.drop_first();
        lemma_trim_start_keeps(t);
        assert forall|i: int| 0 <= i < crate::text::trim_start(s).len() implies s.contains(#[trigger] crate::text::trim_start(s)[i]) by {
            let k = choose|k: int| 0 <= k < t.len() && t[k] == crate::text::trim_start(t)[i];
            assert(s[k + 1] == t[k]);
        }
    } else {
        assert forall|i: int| 0 <= i < crate::text::trim_start(s).len() implies s.contains(#[trigger] crate::text::trim_start(s)[i]) by {
            assert(s[i] == crate::text::trim_start(s)[i]);
        }
    }
}

proof fn lemma_trim_end_keeps(s: Seq<char>)
    ensures
        forall|i: int| 0 <= i < crate::text::trim_end(s).len() ==> s.contains(#[trigger] crate::text::trim_end(s)[i]),
    decreases s.len(),
{
    if s.len() > 0 && is_ws(s.last()) {
        let t = s.drop_last();
        lemma_trim_end_keeps(t);
        assert forall|i: int| 0 <= i < crate::text::trim_end(s).len() implies s.contains(#[trigger] crate::text::trim_end(s)[i]) by {
            let k = choose|k: int| 0 <= k < t.len() && t[k] == crate::text::trim_end(t)[i];
            assert(s[k] == t[k]);
        }
    } else {
        assert forall|i: int| 0 <= i < crate::text::trim_end(s).len() implies s.contains(#[trigger] crate::text::trim_end(s)[i]) by {
            assert(s[i] == crate::text::trim_end(s)[i]);
        }
    }
}

/// A cleaned original file name holds no path separator, so it names no other
/// directory.
pub proof fn law_clean_name_has_no_separator(name: Seq<char>)
    ensures
        !clean_original_name(name).contains('/'),
        !clean_original_name(name).contains('\\'),
{
    let a = after_separator(name);
    lemma_after_separator_clean(name);
    lemma_trim_keeps(a);
    if clean_original_name(name).contains('/') {
        let i = choose|i: int| 0 <= i < trim(a).len() && trim(a)[i] == '/';
        assert(a.contains(trim(a)[i]));
        let k = choose|k: int| 0 <= k < a.len() && a[k] == trim(a)[i];
        assert(a[k] != '/');
    }
    if clean_original_name(name).contains('\\') {
        let i = choose|i: int| 0 <= i < trim(a).len() && trim(a)[i] == '\\';
        assert(a.contains(trim(a)[i]));
        let k = choose|k: int| 0 <= k < a.len() && a[k] == trim(a)[i];
        assert(a[k] != '\\');
    }
}

fn after_separator_exec(s: &[char]) -> (r: Vec<char>)
    ensures
        r@ == after_separator(s@),
{
    let mut k = s.len();
    assert(s@.take(k as int) == s@);
    assert(s@.skip(k as int) == Seq::<char>::empty());
    assert(after_separator(s@) + Seq::<char>::empty() == after_separator(s@));
    while k > 0 && s[k - 1] != '/' && s[k - 1] != '\\'
        invariant
            k <= s@.len(),
            after_separator(s@) == after_separator(s@.take(k as int)) + s@.skip(k as int),
        decreases k,
    {
        proof {
            let t = s@.take(k as int);
            assert(t.drop_last() == s@.take(k - 1));
            assert(s@.skip(k - 1) == seq![t.last()] + s@.skip(k as int));
        }
        k = k - 1;
    }
    proof {
        assert(s@.take(s@.len() as int) == s@);
        assert(s@.skip(s@.len() as int) == Seq::<char>::empty());
        if k > 0 {
            assert(after_separator(s@.take(k as int)) == Seq::<char>::empty());
        } else {
            assert(s@.take(0) == Seq::<char>::empty());
        }
    }
    slice_vec(s, k, s.len())
}

/// Reduces a client-supplied file name to its last path segment, trimmed; refuses an empty
/// name, `.` and `..`.
pub fn safe_original_name(name: &str) -> (r: Result<String, ApiError>)
    ensures
        r matches Ok(s) ==> s@ == clean_original_name(name@) && !is_invalid_file_name(s@),
        r matches Err(e) ==> is_invalid_file_name(clean_original_name(name@)) && e.is_validation(
            "filename is invalid"@,
        ),
{
    let chars = chars_of(name);
    let last = after_separator_exec(&chars);
    let cleaned = trim_exec(&last);
    let dot = chars_of(".");
    let dotdot = chars_of("..");
    if cleaned.len() == 0 || seq_eq(&cleaned, &dot) || seq_eq(&cleaned, &dotdot) {
        return Err(ApiError::validation("filename is invalid"));
    }
    Ok(string_of(&cleaned))
}

/// The extension of a name: what follows its last `.`, if there is one.
pub open spec fn raw_extension(name: Seq<char>) -> Option<Seq<char>> {
    match last_index_of(name, '.') {
        Some(i) => Some(name.skip(i + 1)),
        None => None,
    }
}

/// The name without its extension: what precedes the last `.` (all of it when there is none).
pub open spec fn name_stem(name: Seq<char>) -> Seq<char> {
    match last_index_of(name, '.') {
        Some(i) => name.take(i),
        None => name,
    }
}

/// The lowercased extension of a file name, when it is a simple one (non-empty, ASCII letters
/// and digits only).
pub open spec fn simple_extension(name: Seq<char>) -> Option<Seq<char>> {
    match raw_extension(name) {
        Some(ext) => if lowercase(ext).len() > 0 && all_alnum(lowercase(ext)) {
            Some(lowercase(ext))
        } else {
            None
        },
        None => None,
    }
}

fn all_alnum_exec(s: &[char]) -> (r: bool)
    ensures
        r == all_alnum(s@),
{
    let n = s.len();
    for i in 0..n
        invariant
            n == s@.len(),
            forall|j: int| 0 <= j < i ==> spec_is_ascii_alnum(#[trigger] s@[j]),
    {
        if !is_ascii_alnum(s[i]) {
            return false;
        }
    }
    true
}

/// The stem of a name (everything before its last `.`).
pub fn stem_of(name: &str) -> (r: String)
    ensures
        r@ == name_stem(name@),
{
    let chars = chars_of(name);
    match rfind_char(&chars, '.') {
        Some(i) => string_of(&slice_vec(&chars, 0, i)),
        None => string_of(&chars),
    }
}

/// The lowercased extension of a file name; the name must have a simple one.
pub fn extension_from_name(name: &str) -> (r: Result<String, ApiError>)
    ensures
        r matches Ok(s) ==> simple_extension(name@) == Some(s@),
        r matches Err(e) ==> simple_extension(name@) is None && e.is_validation(
            "file must have a simple extension"@,
        ),
{
    let chars = chars_of(name);
    match rfind_char(&chars, '.') {
        Some(i) => {
            assert(i < chars.len());
            let ext = string_of(&slice_vec(&chars, i + 1, chars.len()));
            let lowered = to_lowercase(ext.as_str());
            let lc = chars_of(lowered.as_str());
            if lc.len() > 0 && all_alnum_exec(&lc) {
                Ok(lowered)
            } else {
                Err(ApiError::validation("file must have a simple extension"))
            }
        },
        None => Err(ApiError::validation("file must have a simple extension")),
    }
}

/// The characters that `char::to_lowercase` yields for each character of `s`, in order.
pub open spec fn lower_flat(s: Seq<char>) -> Seq<char>
    decreases s.len(),
{
    if s.len() == 0 {
        Seq::empty()
    } else {
        lower_flat(s.drop_last()) + char_lowercase(s.last())
    }
}

/// The slug body: ASCII letters and digits kept, every other run of characters turned into
/// one `-`.
pub open spec fn slug_body(s: Seq<char>) -> Seq<char>
    decreases s.len(),
{
    if s.len() == 0 {
        Seq::empty()
    } else {
        let prev = slug_body(s.drop_last());
        let c = s.last();
        if spec_is_ascii_alnum(c) {
            prev.push(c)
        } else if prev.len() > 0 && prev.last() == '-' {
            prev
        } else {
            prev.push('-')
        }
    }
}

/// The slug of a file stem as stored names use it; `file` when nothing is left.
pub open spec fn file_slug(value: Seq<char>) -> Seq<char> {
    let out = trim_char(slug_body(lower_flat(value)), '-');
    if out.len() == 0 {
        "file"@
    } else {
        out
    }
}

/// The characters that may appear in a slug.
pub open spec fn is_slug_char(c: char) -> bool {
    spec_is_ascii_alnum(c) || c == '-'
}

/// A well-formed slug: non-empty, made of ASCII letters, digits and single dashes, with no
/// dash at either end.
pub open spec fn is_slug(s: Seq<char>) -> bool {
    &&& s.len() > 0
    &&& forall|i: int| 0 <= i < s.len() ==> is_slug_char(#[trigger] s[i])
    &&& s[0] != '-'
    &&& s.last() != '-'
    &&& forall|i: int| 0 <= i < s.len() - 1 ==> !(#[trigger] s[i] == '-' && s[i + 1] == '-')
}

/// Turns a file stem into a slug for stored names.
pub fn slugify(value: &str) -> (r: String)
    ensures
        r@ == file_slug(value@),
{
    let chars = chars_of(value);
    let mut out: Vec<char> = Vec::new();
    let n = chars.len();
    let ghost mut lowered: Seq<char> = Seq::empty();
    for i in 0..n
        invariant
            n == chars@.len(),
            chars@ == value@,
            lowered == lower_flat(chars@.take(i as int)),
            out@ == slug_body(lowered),
    {
        let lc = lower_char(chars[i]);
        let m = lc.len();
        let ghost before = lowered;
        for j in 0..m
            invariant
                m == lc@.len(),
                lowered == before + lc@.take(j as int),
                out@ == slug_body(lowered),
        {
            let c = lc[j];
            proof {
                assert(lc@.take(j + 1) == lc@.take(j as int).push(c));
                assert((before + lc@.take(j + 1)).drop_last() == before + lc@.take(j as int));
                lowered = before + lc@.take(j + 1);
            }
            if is_ascii_alnum(c) {
                out.push(c);
            } else if out.len() == 0 || out[out.len() - 1] != '-' {
                out.push('-');
            }
        }
        proof {
            assert(lc@.take(m as int) == lc@);
            assert(chars@.take(i + 1).drop_last() == chars@.take(i as int));
        }
    }
    proof {
        assert(chars@.take(n as int) == chars@);
    }
    let trimmed = trim_char_exec(&out, '-');
    if trimmed.len() == 0 {
        "file".to_owned()
    } else {
        string_of(&trimmed)
    }
}

/// The folder part of an upload path: trimmed of whitespace, then of slashes.
pub open spec fn clean_folder(folder: Seq<char>) -> Seq<char> {
    trim_char(trim(folder), '/')
}

/// Whether an upload path built from `folder` and `filename` is refused.
pub open spec fn is_invalid_upload_path(folder: Seq<char>, filename: Seq<char>) -> bool {
    let f = clean_folder(folder);
    f.len() == 0 || contains_seq(f, ".."@) || filename.contains('/') || filename.contains('\\')
}

/// An accepted upload path is relative and stays inside its folder: the folder
/// part is not empty, neither begins nor ends with `/`, and holds no `..`; the
/// file name holds no separator.
pub proof fn law_upload_path_is_relative(folder: Seq<char>, filename: Seq<char>)
    requires
        !is_invalid_upload_path(folder, filename),
    ensures
        ({
            let f = clean_folder(folder);
            let path = f + "/"@ + filename;
            &&& f.len() > 0
            &&& path[0] != '/'
            &&& f.last() != '/'
            &&& !contains_seq(f, ".."@)
            &&& !filename.contains('/')
            &&& !filename.contains('\\')
        }),
{
    let t = trim(folder);
    let a = crate::text::trim_start_char(t, '/');
    crate::text::lemma_trim_start_char_shape(t, '/');
    crate::text::lemma_trim_end_char_shape(a, '/');
    let f = clean_folder(folder);
    assert(f == crate::text::trim_end_char(a, '/'));
    assert(f[0] == a[0]);
    assert((f + "/"@ + filename)[0] == f[0]);
}

/// Joins an upload folder and a file name into a relative path, refusing a path that is empty,
/// climbs with `..`, or whose file name holds a separator.
pub fn join_relative(folder: &str, filename: &str) -> (r: Result<String, ApiError>)
    ensures
        r matches Ok(s) ==> !is_invalid_upload_path(folder@, filename@) && s@ == clean_folder(
            folder@,
        ) + "/"@ + filename@,
        r matches Err(e) ==> is_invalid_upload_path(folder@, filename@) && e.is_validation(
            "upload path is invalid"@,
        ),
{
    let f0 = chars_of(folder);
    let f1 = trim_exec(&f0);
    let mut f = trim_char_exec(&f1, '/');
    let name = chars_of(filename);
    let dots = chars_of("..");
    if f.len() == 0 || contains_exec(&f, &dots) || contains_char(&name, '/') || contains_char(
        &name,
        '\\',
    ) {
        return Err(ApiError::validation("upload path is invalid"));
    }
    let slash = chars_of("/");
    extend_chars(&mut f, &slash);
    extend_chars(&mut f, &name);
    Ok(string_of(&f))
}

} // verus!

verus! {

/// No two dashes next to each other, and only slug characters.
pub open spec fn dash_clean(s: Seq<char>) -> bool {
    &&& forall|i: int| 0 <= i < s.len() ==> is_slug_char(#[trigger] s[i])
    &&& forall|i: int| 0 <= i < s.len() - 1 ==> !(#[trigger] s[i] == '-' && s[i + 1] == '-')
}

proof fn lemma_slug_body_clean(s: Seq<char>)
    ensures
        dash_clean(slug_body(s)),
    decreases s.len(),
{
    if s.len() > 0 {
        lemma_slug_body_clean(s.drop_last());
        let prev = slug_body(s.drop_last());
        let out = slug_body(s);
        assert forall|i: int| 0 <= i < out.len() - 1 implies !(#[trigger] out[i] == '-' && out[i + 1] == '-') by {
            if i < prev.len() - 1 {
                assert(out[i] == prev[i] && out[i + 1] == prev[i + 1]);
            }
        }
    }
}

proof fn lemma_trim_start_dash_clean(s: Seq<char>)
    requires
        dash_clean(s),
    ensures
        dash_clean(crate::text::trim_start_char(s, '-')),
        crate::text::trim_start_char(s, '-').len() > 0 ==> crate::text::trim_start_char(s, '-')[0] != '-',
        exists|k: int| 0 <= k <= s.len() && crate::text::trim_start_char(s, '-') == s.skip(k),
    decreases s.len(),
{
    if s.len() > 0 && s[0] == '-' {
        assert(dash_clean(s.drop_first())) by {
            assert forall|i: int| 0 <= i < s.drop_first().len() - 1 implies !(#[trigger] s.drop_first()[i] == '-' && s.drop_first()[i + 1] == '-') by {
                assert(s.drop_first()[i] == s[i + 1]);
            }
        }
        lemma_trim_start_dash_clean(s.drop_first());
        let k = choose|k: int| 0 <= k <= s.drop_first().len() && crate::text::trim_start_char(s.drop_first(), '-') == s.drop_first().skip(k);
        assert(s.drop_first().skip(k) == s.skip(k + 1));
    } else {
        assert(s.skip(0) == s);
    }
}

proof fn lemma_trim_end_dash_clean(s: Seq<char>)
    requires
        dash_clean(s),
        s.len() > 0 ==> s[0] != '-',
    ensures
        dash_clean(crate::text::trim_end_char(s, '-')),
        crate::text::trim_end_char(s, '-').len() > 0 ==> crate::text::trim_end_char(s, '-')[0] != '-',
        crate::text::trim_end_char(s, '-').len() > 0 ==> crate::text::trim_end_char(s, '-').last() != '-',
    decreases s.len(),
{
    if s.len() > 0 && s.last() == '-' {
        assert(dash_clean(s.drop_last()));
        lemma_trim_end_dash_clean(s.drop_last());
    }
}

/// Every slug that `slugify` produces is well formed: non-empty, ASCII letters, digits and
/// single dashes, with no dash at either end.
pub proof fn law_file_slug_is_slug(value: Seq<char>)
    ensures
        is_slug(file_slug(value)),
{
    let body = slug_body(lower_flat(value));
    lemma_slug_body_clean(lower_flat(value));
    lemma_trim_start_dash_clean(body);
    let t = crate::text::trim_start_char(body, '-');
    lemma_trim_end_dash_clean(t);
    reveal_strlit("file");
}

} // verus!
