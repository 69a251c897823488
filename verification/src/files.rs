use vstd::prelude::*;
use crate::error::ApiError;
use crate::json::JsonValue;
use crate::json::lemma_filter_push_pub;
use crate::text::{chars_of, contains_exec, contains_seq, lowercase, string_of, to_lowercase, trim, trim_exec};

verus! {

/// The filters of a file listing.
pub struct ListQuery {
    pub project_id: Option<String>,
    pub search: Option<String>,
    pub mime_type: Option<String>,
    pub from: Option<String>,
    pub to: Option<String>,
}

/// A stored file as the API shows it.
pub struct FileView {
    pub id: String,
    pub project_id: String,
    pub storage_connection_id: String,
    pub original_name: String,
    pub saved_name: String,
    pub mime_type: String,
    pub extension: String,
    pub size: i64,
    pub hash: String,
    pub folder: String,
    pub path: String,
    pub url: String,
    pub status: String,
    pub duplicate_of_file_id: Option<String>,
    pub metadata: JsonValue,
    pub created_at: String,
    pub updated_at: String,
}

/// An upload log entry as the API shows it.
pub struct UploadLogView {
    pub id: String,
    pub project_id: String,
    pub file_id: Option<String>,
    pub event: String,
    pub status: String,
    pub message: Option<String>,
    pub metadata: JsonValue,
    pub created_at: String,
}

/// The MIME type a listing is narrowed to: the requested one, unless empty.
pub fn mime_filter(mime_type: Option<&str>) -> (r: Option<String>)
    ensures
        match mime_type {
            Some(m) => if m@.len() > 0 { r matches Some(s) && s@ == m@ } else { r is None },
            None => r is None,
        },
{
    match mime_type {
        Some(m) => if chars_of(m).len() > 0 { Some(m.to_owned()) } else { None },
        None => None,
    }
}

/// What `chrono::DateTime::parse_from_rfc3339` reads from a text, as seconds
/// and nanoseconds since the Unix epoch in UTC; `None` when the text is not
/// an RFC 3339 timestamp.
pub uninterp spec fn rfc3339_instant(s: Seq<char>) -> Option<(i64, u32)>;

/// Calls `DateTime::parse_from_rfc3339` and reads the instant as UTC seconds
/// and nanoseconds.
#[verifier::external_body]
fn parse_rfc3339(s: &str) -> (r: Option<(i64, u32)>)
    ensures
        r == rfc3339_instant(s@),
{
    match chrono::DateTime::parse_from_rfc3339(s) {
        Ok(dt) => Some((dt.timestamp(), dt.timestamp_subsec_nanos())),
        Err(_) => None,
    }
}

/// A date bound of a listing: absent or blank gives none; otherwise the
/// trimmed text must be an RFC 3339 timestamp.
pub fn parse_date_filter(value: Option<&str>) -> (r: Result<Option<(i64, u32)>, ApiError>)
    ensures
        match value {
            None => r matches Ok(o) && o is None,
            Some(v) => if trim(v@).len() == 0 {
                r matches Ok(o) && o is None
            } else {
                match rfc3339_instant(trim(v@)) {
                    Some(t) => r matches Ok(o) && o == Some(t),
                    None => r matches Err(e) && e.is_validation("date filters must be RFC3339 timestamps"@),
                }
            },
        },
{
    let v = match value {
        None => return Ok(None),
        Some(v) => v,
    };
    let t = trim_exec(&chars_of(v));
    if t.len() == 0 {
        return Ok(None);
    }
    let text = string_of(&t);
    match parse_rfc3339(text.as_str()) {
        Some(instant) => Ok(Some(instant)),
        None => Err(ApiError::validation("date filters must be RFC3339 timestamps")),
    }
}

/// The search term of a listing: trimmed and lowercased, unless blank.
pub open spec fn spec_search_term(search: Option<Seq<char>>) -> Option<Seq<char>> {
    match search {
        Some(s) => if trim(s).len() > 0 { Some(lowercase(trim(s))) } else { None },
        None => None,
    }
}

/// The search term of a listing.
pub fn search_term(search: Option<&str>) -> (r: Option<String>)
    ensures
        crate::http::opt_view(r) == spec_search_term(crate::text::opt_str_view(search)),
{
    match search {
        Some(s) => {
            let t = trim_exec(&chars_of(s));
            if t.len() > 0 {
                let text = string_of(&t);
                Some(to_lowercase(text.as_str()))
            } else {
                None
            }
        },
        None => None,
    }
}

/// Whether a file matches a search term: its original name, saved name or
/// path, lowercased, holds the term.
pub open spec fn file_matches(f: FileView, term: Seq<char>) -> bool {
    ||| contains_seq(lowercase(f.original_name@), term)
    ||| contains_seq(lowercase(f.saved_name@), term)
    ||| contains_seq(lowercase(f.path@), term)
}

/// The predicate of `file_matches` for one term.
pub open spec fn matching(term: Seq<char>) -> spec_fn(FileView) -> bool {
    |f: FileView| file_matches(f, term)
}

fn lower_contains(s: &str, term: &[char]) -> (r: bool)
    ensures
        r == contains_seq(lowercase(s@), term@),
{
    let l = to_lowercase(s);
    contains_exec(&chars_of(l.as_str()), term)
}

/// The search keeps exactly the files it finds: with a term, a file whose
/// original name, saved name or path, lowercased, holds the term is kept, and
/// every file kept is one of the given files and holds the term in one of
/// those three.
pub proof fn law_search_keeps_what_it_finds(rows: Seq<FileView>, term: Seq<char>)
    ensures
        forall|i: int|
            0 <= i < rows.len() && (contains_seq(lowercase(rows[i].original_name@), term)
                || contains_seq(lowercase(rows[i].saved_name@), term)
                || contains_seq(lowercase(#[trigger] rows[i].path@), term)) ==> rows.filter(
                matching(term),
            ).contains(rows[i]),
        forall|j: int|
            0 <= j < rows.filter(matching(term)).len() ==> {
                let f = #[trigger] rows.filter(matching(term))[j];
                &&& rows.contains(f)
                &&& (contains_seq(lowercase(f.original_name@), term) || contains_seq(
                    lowercase(f.saved_name@),
                    term,
                ) || contains_seq(lowercase(f.path@), term))
            },
{
    let kept = rows.filter(matching(term));
    assert forall|i: int|
        0 <= i < rows.len() && (contains_seq(lowercase(rows[i].original_name@), term)
            || contains_seq(lowercase(rows[i].saved_name@), term)
            || contains_seq(lowercase(#[trigger] rows[i].path@), term)) implies kept.contains(rows[i]) by {
        assert(matching(term)(rows[i]));
        rows.lemma_filter_contains(matching(term), i);
    }
    #[allow(deprecated)]
    rows.filter_lemma(matching(term));
    assert forall|j: int| 0 <= j < kept.len() implies {
        let f = #[trigger] kept[j];
        &&& rows.contains(f)
        &&& (contains_seq(lowercase(f.original_name@), term) || contains_seq(lowercase(f.saved_name@), term)
            || contains_seq(lowercase(f.path@), term))
    } by {
        rows.lemma_filter_pred(matching(term), j);
        assert(kept.contains(kept[j]));
        rows.lemma_filter_contains_rev(matching(term), kept[j]);
    }
}

/// Keeps the files that match the search term, in order; all of them when
/// there is no term. With a term, a file is kept exactly when its original
/// name, saved name or path, lowercased, holds the term.
pub fn filter_files(rows: Vec<FileView>, search: Option<&str>) -> (r: Vec<FileView>)
    ensures
        match spec_search_term(crate::text::opt_str_view(search)) {
            Some(term) => r@ == rows@.filter(matching(term)),
            None => r@ == rows@,
        },
        spec_search_term(crate::text::opt_str_view(search)) matches Some(term) ==> forall|i: int|
            0 <= i < rows@.len() && (contains_seq(lowercase(rows@[i].original_name@), term)
                || contains_seq(lowercase(rows@[i].saved_name@), term)
                || contains_seq(lowercase(#[trigger] rows@[i].path@), term)) ==> r@.contains(rows@[i]),
        spec_search_term(crate::text::opt_str_view(search)) matches Some(term) ==> forall|j: int|
            0 <= j < r@.len() ==> rows@.contains(#[trigger] r@[j]) && (contains_seq(
                lowercase(r@[j].original_name@),
                term,
            ) || contains_seq(lowercase(r@[j].saved_name@), term) || contains_seq(lowercase(r@[j].path@), term)),
{
    proof {
        if let Some(t) = spec_search_term(crate::text::opt_str_view(search)) {
            law_search_keeps_what_it_finds(rows@, t);
        }
    }
    let term = match search_term(search) {
        Some(t) => t,
        None => return rows,
    };
    let tc = chars_of(term.as_str());
    let ghost pred = matching(term@);
    let ghost all = rows@;
    let mut rest = rows;
    let n = rest.len();
    let mut kept: Vec<FileView> = Vec::new();
    let mut i: usize = 0;
    assert(all.take(0) =~= Seq::<FileView>::empty());
    assert(all.skip(0) == all);
    while rest.len() > 0
        invariant
            tc@ == term@,
            pred == matching(term@),
            i <= all.len(),
            n == all.len(),
            rest@ == all.skip(i as int),
            kept@ == all.take(i as int).filter(pred),
        decreases rest@.len(),
    {
        let f = rest.remove(0);
        proof {
            assert(f == all[i as int]);
            assert(all.skip(i + 1) == all.skip(i as int).drop_first());
            assert(all.take(i + 1) == all.take(i as int).push(f));
            lemma_filter_push_pub(all.take(i as int), f, pred);
        }
        let keep = lower_contains(f.original_name.as_str(), &tc) || lower_contains(
            f.saved_name.as_str(),
            &tc,
        ) || lower_contains(f.path.as_str(), &tc);
        if keep {
            kept.push(f);
        }
        i = i + 1;
    }
    assert(all.take(i as int) == all);
    kept
}

} // verus!
