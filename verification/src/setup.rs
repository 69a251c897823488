use vstd::prelude::*;
use vstd::string::StringSliceAdditionalSpecFns;
use vstd::utf8::encode_utf8;
use crate::error::ApiError;
use crate::json::{JsonValue, JsonView, json_views, lemma_json_views};
use crate::storage::StorageInput;
use crate::text::{
    chars_of, string_of, trim, trim_exec, to_lowercase, lowercase, contains_char,
    spec_is_ascii_alnum, is_ascii_alnum, trim_end_char, trim_end_char_exec, concat2,
};
use crate::uploads::{is_literal, views};

verus! {

/// Whether the first-run setup still has to be done: it has as long as there are no users.
pub struct StatusResponse {
    pub setup_required: bool,
}

/// The first administrator.
pub struct AdminInput {
    pub name: String,
    pub email: String,
    pub password: String,
}

/// The first project.
pub struct ProjectInput {
    pub name: String,
    pub slug: Option<String>,
}

/// The settings of the first upload preset; every one is optional.
pub struct PresetInput {
    pub name: Option<String>,
    pub folder: Option<String>,
    pub allowed_mime_types: Option<Vec<String>>,
    pub allowed_extensions: Option<Vec<String>>,
    pub max_file_size: Option<i64>,
    pub duplicate_strategy: Option<String>,
    pub filename_strategy: Option<String>,
    pub transformations: Option<JsonValue>,
}

/// The first-run setup request.
pub struct InitializeRequest {
    pub admin: AdminInput,
    pub project: ProjectInput,
    pub storage: StorageInput,
    pub preset: Option<PresetInput>,
}

/// The identifiers the first-run setup created.
pub struct InitializeResponse {
    pub user_id: String,
    pub project_id: String,
    pub storage_connection_id: String,
    pub upload_preset_id: String,
}

/// The setup status for a given number of users.
pub fn status(user_count: u64) -> (r: StatusResponse)
    ensures
        r.setup_required == (user_count == 0),
{
    StatusResponse { setup_required: user_count == 0 }
}

/// The first-run setup may run only while there are no users.
pub fn ensure_setup_open(user_count: u64) -> (r: Result<(), ApiError>)
    ensures
        r is Ok <==> user_count == 0,
        r matches Err(e) ==> e.is_conflict("setup already completed"@),
{
    if user_count > 0 {
        return Err(ApiError::conflict("setup already completed"));
    }
    Ok(())
}

/// Why an administrator is refused, if it is.
pub open spec fn admin_refusal(name: Seq<char>, email: Seq<char>, password: Seq<char>) -> Option<Seq<char>> {
    if trim(name).len() == 0 {
        Some("admin name is required"@)
    } else if !email.contains('@') {
        Some("admin email is invalid"@)
    } else if encode_utf8(password).len() < 8 {
        Some("password must be at least 8 characters"@)
    } else {
        None
    }
}

/// Checks the first administrator: a name, an email with `@`, and a password of at least
/// eight bytes.
pub fn validate_admin(admin: &AdminInput) -> (r: Result<(), ApiError>)
    ensures
        r is Ok <==> admin_refusal(admin.name@, admin.email@, admin.password@) is None,
        r matches Err(e) ==> e.is_validation(admin_refusal(admin.name@, admin.email@, admin.password@)->0),
{
    if trim_exec(&chars_of(admin.name.as_str())).len() == 0 {
        return Err(ApiError::validation("admin name is required"));
    }
    if !contains_char(&chars_of(admin.email.as_str()), '@') {
        return Err(ApiError::validation("admin email is invalid"));
    }
    if admin.password.as_str().as_bytes().len() < 8 {
        return Err(ApiError::validation("password must be at least 8 characters"));
    }
    Ok(())
}

/// The stored name of the administrator (trimmed) and email (trimmed, lowercased).
pub fn normalize_admin(admin: &AdminInput) -> (r: (String, String))
    ensures
        r.0@ == trim(admin.name@),
        r.1@ == lowercase(trim(admin.email@)),
{
    let name = string_of(&trim_exec(&chars_of(admin.name.as_str())));
    let email = string_of(&trim_exec(&chars_of(admin.email.as_str())));
    (name, to_lowercase(email.as_str()))
}

/// Runs of characters other than ASCII letters and digits collapse to one `-`; no `-` at the
/// start.
pub open spec fn project_slug_body(s: Seq<char>) -> Seq<char>
    decreases s.len(),
{
    if s.len() == 0 {
        Seq::empty()
    } else {
        let prev = project_slug_body(s.drop_last());
        let c = s.last();
        if spec_is_ascii_alnum(c) {
            prev.push(c)
        } else if prev.len() == 0 || prev.last() == '-' {
            prev
        } else {
            prev.push('-')
        }
    }
}

/// A project slug: the trimmed, lowercased input with every run of other characters turned
/// into one `-` and none at either end. It may be empty.
pub open spec fn project_slug(input: Seq<char>) -> Seq<char> {
    trim_end_char(project_slug_body(lowercase(trim(input))), '-')
}

/// Turns a project name into a slug.
pub fn slugify(input: &str) -> (r: String)
    ensures
        r@ == project_slug(input@),
{
    let t = string_of(&trim_exec(&chars_of(input)));
    let lowered = to_lowercase(t.as_str());
    let c = chars_of(lowered.as_str());
    let mut out: Vec<char> = Vec::new();
    let n = c.len();
    for i in 0..n
        invariant
            n == c@.len(),
            out@ == project_slug_body(c@.take(i as int)),
    {
        proof {
            assert(c@.take(i + 1).drop_last() == c@.take(i as int));
        }
        if is_ascii_alnum(c[i]) {
            out.push(c[i]);
        } else if out.len() > 0 && out[out.len() - 1] != '-' {
            out.push('-');
        }
    }
    assert(c@.take(n as int) == c@);
    string_of(&trim_end_char_exec(&out, '-'))
}

/// The slug of the first project: from its given slug, else from its name; it must not be
/// empty.
pub fn project_slug_for(project: &ProjectInput) -> (r: Result<String, ApiError>)
    ensures
        ({
            let s = match project.slug {
                Some(s) => project_slug(s@),
                None => project_slug(project.name@),
            };
            &&& r matches Ok(v) ==> v@ == s && s.len() > 0
            &&& r matches Err(e) ==> s.len() == 0 && e.is_validation("project slug cannot be empty"@)
        }),
{
    let slug = match &project.slug {
        Some(s) => slugify(s.as_str()),
        None => slugify(project.name.as_str()),
    };
    if slug.as_str().as_bytes().len() == 0 {
        return Err(ApiError::validation("project slug cannot be empty"));
    }
    Ok(slug)
}

/// The name a project is stored under: the given one, trimmed.
pub fn project_name(project: &ProjectInput) -> (r: String)
    ensures
        r@ == trim(project.name@),
{
    string_of(&trim_exec(&chars_of(project.name.as_str())))
}

/// A stored upload preset.
pub struct PresetRecord {
    pub id: String,
    pub project_id: String,
    pub storage_connection_id: Option<String>,
    pub name: String,
    pub folder: String,
    pub allowed_mime_types: JsonValue,
    pub allowed_extensions: JsonValue,
    pub max_file_size: i64,
    pub duplicate_strategy: String,
    pub filename_strategy: String,
    pub transformations: JsonValue,
}

/// The duplicate strategies a preset may use.
pub open spec fn is_duplicate_strategy(s: Seq<char>) -> bool {
    s == "return_existing"@ || s == "upload_new_copy"@ || s == "reject_duplicate"@
}

/// A JSON list of the given strings.
pub open spec fn is_string_list(v: JsonView, items: Seq<Seq<char>>) -> bool {
    v matches JsonView::Array(a) && a.len() == items.len() && forall|i: int|
        0 <= i < items.len() ==> (#[trigger] a[i]).str_view() == Some(items[i])
}

fn string_list(items: Option<Vec<String>>) -> (r: JsonValue)
    ensures
        is_string_list(r@, match items { Some(v) => views(v@), None => Seq::empty() }),
{
    let mut out: Vec<JsonValue> = Vec::new();
    match items {
        Some(v) => {
            let ghost all = views(v@);
            for s in it: v.into_iter()
                invariant
                    it.seq() == v@,
                    all == views(v@),
                    out@.len() == it.index(),
                    forall|i: int| 0 <= i < out@.len() ==> (#[trigger] out@[i])@ == JsonView::Str(all[i]),
            {
                out.push(JsonValue::Str(s));
            }
            proof {
                lemma_json_views(out@);
            }
            JsonValue::Array(out)
        },
        None => {
            proof {
                lemma_json_views(out@);
            }
            JsonValue::Array(out)
        },
    }
}

/// An empty JSON object.
pub open spec fn is_empty_object(v: JsonView) -> bool {
    v matches JsonView::Object(f) && f.len() == 0
}

/// The duplicate strategy of a new preset (`return_existing` when none is given).
pub open spec fn chosen_strategy(input: Option<PresetInput>) -> Seq<char> {
    match input {
        Some(p) => match p.duplicate_strategy {
            Some(s) => s@,
            None => "return_existing"@,
        },
        None => "return_existing"@,
    }
}

/// An optional string field with a default.
pub open spec fn or_default(v: Option<String>, d: Seq<char>) -> Seq<char> {
    match v {
        Some(s) => s@,
        None => d,
    }
}

/// Builds the first upload preset from the optional settings, with the defaults: name
/// `default`, folder `uploads`, no MIME or extension restriction, 10 MiB, `return_existing`,
/// `slug_random`, no transformations.
pub fn build_preset(input: Option<PresetInput>, project_id: &str, preset_id: &str, storage_connection_id: &str) -> (r: Result<PresetRecord, ApiError>)
    ensures
        r is Ok <==> is_duplicate_strategy(chosen_strategy(input)),
        r matches Err(e) ==> e.is_validation("invalid duplicate_strategy: "@ + chosen_strategy(input)),
        r matches Ok(p) ==> {
            &&& p.id@ == preset_id@
            &&& p.project_id@ == project_id@
            &&& crate::storage::ov(p.storage_connection_id) == Some(storage_connection_id@)
            &&& p.duplicate_strategy@ == chosen_strategy(input)
            &&& match input {
                Some(i) => {
                    &&& p.name@ == or_default(i.name, "default"@)
                    &&& p.folder@ == or_default(i.folder, "uploads"@)
                    &&& is_string_list(p.allowed_mime_types@, match i.allowed_mime_types { Some(v) => views(v@), None => Seq::empty() })
                    &&& is_string_list(p.allowed_extensions@, match i.allowed_extensions { Some(v) => views(v@), None => Seq::empty() })
                    &&& p.max_file_size == match i.max_file_size { Some(m) => m, None => 10485760i64 }
                    &&& p.filename_strategy@ == or_default(i.filename_strategy, "slug_random"@)
                    &&& match i.transformations { Some(t) => p.transformations == t, None => is_empty_object(p.transformations@) }
                },
                None => {
                    &&& p.name@ == "default"@
                    &&& p.folder@ == "uploads"@
                    &&& is_string_list(p.allowed_mime_types@, Seq::empty())
                    &&& is_string_list(p.allowed_extensions@, Seq::empty())
                    &&& p.max_file_size == 10485760
                    &&& p.filename_strategy@ == "slug_random"@
                    &&& is_empty_object(p.transformations@)
                },
            }
        },
{
    let input = match input {
        Some(i) => i,
        None => PresetInput {
            name: None,
            folder: None,
            allowed_mime_types: None,
            allowed_extensions: None,
            max_file_size: None,
            duplicate_strategy: None,
            filename_strategy: None,
            transformations: None,
        },
    };
    let PresetInput { name, folder, allowed_mime_types, allowed_extensions, max_file_size, duplicate_strategy, filename_strategy, transformations } = input;
    let strategy = match duplicate_strategy {
        Some(s) => s,
        None => "return_existing".to_owned(),
    };
    if !(is_literal(strategy.as_str(), "return_existing") || is_literal(strategy.as_str(), "upload_new_copy")
        || is_literal(strategy.as_str(), "reject_duplicate")) {
        return Err(ApiError::Validation(concat2("invalid duplicate_strategy: ", strategy.as_str())));
    }
    Ok(PresetRecord {
        id: preset_id.to_owned(),
        project_id: project_id.to_owned(),
        storage_connection_id: Some(storage_connection_id.to_owned()),
        name: match name { Some(n) => n, None => "default".to_owned() },
        folder: match folder { Some(f) => f, None => "uploads".to_owned() },
        allowed_mime_types: string_list(allowed_mime_types),
        allowed_extensions: string_list(allowed_extensions),
        max_file_size: match max_file_size { Some(m) => m, None => 10485760 },
        duplicate_strategy: strategy,
        filename_strategy: match filename_strategy { Some(f) => f, None => "slug_random".to_owned() },
        transformations: match transformations { Some(t) => t, None => JsonValue::Object(Vec::new()) },
    })
}

} // verus!
