use vstd::prelude::*;
use vstd::string::StringSliceAdditionalSpecFns;
use vstd::utf8::encode_utf8;
use crate::error::ApiError;
use crate::ids::{all_alnum, random_string};
use crate::json::{JsonValue, JsonView, json_views, lemma_json_views};
use crate::text::{
    chars_of, string_of, seq_eq, trim, trim_exec, starts_with, has_prefix, concat2,
};
use crate::uploads::{is_literal, views};

verus! {

/// The events a webhook may subscribe to.
pub open spec fn is_allowed_event(e: Seq<char>) -> bool {
    ||| e == "file.uploaded"@
    ||| e == "file.deleted"@
    ||| e == "file.duplicate_detected"@
    ||| e == "file.optimized"@
    ||| e == "file.failed"@
}

fn allowed_event_exec(e: &str) -> (r: bool)
    ensures
        r == is_allowed_event(e@),
{
    is_literal(e, "file.uploaded") || is_literal(e, "file.deleted") || is_literal(
        e,
        "file.duplicate_detected",
    ) || is_literal(e, "file.optimized") || is_literal(e, "file.failed")
}

/// A webhook target URL: trimmed, and it must use `http://` or `https://`.
pub open spec fn spec_validate_url(url: Seq<char>) -> Option<Seq<char>> {
    let u = trim(url);
    if starts_with(u, "https://"@) || starts_with(u, "http://"@) {
        Some(u)
    } else {
        None
    }
}

/// Checks a webhook URL and returns it trimmed.
pub fn validate_url(url: &str) -> (r: Result<String, ApiError>)
    ensures
        r matches Ok(s) ==> spec_validate_url(url@) == Some(s@),
        r matches Err(e) ==> spec_validate_url(url@) is None && e.is_validation(
            "webhook url must be http or https"@,
        ),
{
    let u = trim_exec(&chars_of(url));
    let https = chars_of("https://");
    let http = chars_of("http://");
    if !(has_prefix(&u, &https) || has_prefix(&u, &http)) {
        return Err(ApiError::validation("webhook url must be http or https"));
    }
    Ok(string_of(&u))
}

/// The normalised event list: each event trimmed, every one allowed, duplicates dropped
/// keeping the first; or the message of the first refusal.
pub open spec fn normalize_events(events: Seq<Seq<char>>) -> Result<Seq<Seq<char>>, Seq<char>>
    decreases events.len(),
{
    if events.len() == 0 {
        Ok(Seq::empty())
    } else {
        match normalize_events(events.drop_last()) {
            Err(m) => Err(m),
            Ok(out) => {
                let e = trim(events.last());
                if !is_allowed_event(e) {
                    Err("unsupported webhook event: "@ + e)
                } else if out.contains(e) {
                    Ok(out)
                } else {
                    Ok(out.push(e))
                }
            },
        }
    }
}

/// What `validate_events` gives for a list of events.
pub open spec fn spec_validate_events(events: Seq<Seq<char>>) -> Result<Seq<Seq<char>>, Seq<char>> {
    if events.len() == 0 {
        Err("at least one webhook event is required"@)
    } else {
        normalize_events(events)
    }
}

/// An allowed event has no surrounding whitespace.
proof fn lemma_allowed_trimmed(e: Seq<char>)
    requires
        is_allowed_event(e),
    ensures
        trim(e) == e,
{
    reveal_strlit("file.uploaded");
    reveal_strlit("file.deleted");
    reveal_strlit("file.duplicate_detected");
    reveal_strlit("file.optimized");
    reveal_strlit("file.failed");
    assert(e.len() > 0 && !crate::text::is_ws(e[0]) && !crate::text::is_ws(e.last()));
    assert(crate::text::trim_start(e) == e);
}

proof fn lemma_normalize_facts(events: Seq<Seq<char>>)
    ensures
        normalize_events(events) matches Ok(out) ==> {
            &&& forall|j: int| 0 <= j < out.len() ==> is_allowed_event(#[trigger] out[j])
            &&& out.no_duplicates()
            &&& forall|i: int| 0 <= i < events.len() ==> out.contains(trim(#[trigger] events[i]))
            &&& forall|j: int| 0 <= j < out.len() ==> exists|i: int|
                0 <= i < events.len() && #[trigger] out[j] == trim(#[trigger] events[i])
            &&& events.len() > 0 ==> out.len() > 0
        },
    decreases events.len(),
{
    if events.len() > 0 {
        let prev = events.drop_last();
        lemma_normalize_facts(prev);
        if let Ok(out) = normalize_events(events) {
            let before = normalize_events(prev)->Ok_0;
            let e = trim(events.last());
            assert forall|i: int| 0 <= i < events.len() implies out.contains(trim(#[trigger] events[i])) by {
                if i < events.len() - 1 {
                    assert(prev[i] == events[i]);
                    let k = choose|k: int| 0 <= k < before.len() && before[k] == trim(prev[i]);
                    assert(out[k] == before[k]);
                } else if before.contains(e) {
                } else {
                    assert(out[out.len() - 1] == e);
                }
            }
            assert forall|j: int| 0 <= j < out.len() implies exists|i: int|
                0 <= i < events.len() && #[trigger] out[j] == trim(#[trigger] events[i]) by {
                if j < before.len() {
                    let i = choose|i: int| 0 <= i < prev.len() && before[j] == trim(prev[i]);
                    assert(out[j] == trim(events[i]));
                } else {
                    assert(out[j] == trim(events[events.len() - 1]));
                }
            }
            if !before.contains(e) {
                assert forall|a: int, b: int| 0 <= a < out.len() && 0 <= b < out.len() && a != b implies
                    out[a] != out[b] by {
                    if a < before.len() && b < before.len() {
                    } else if a < before.len() {
                        assert(before[a] == out[a]);
                    } else {
                        assert(before[b] == out[b]);
                    }
                }
            }
            if before.len() == 0 {
                assert(out.len() == 1);
            }
        }
    }
}

proof fn lemma_normalize_fixed(out: Seq<Seq<char>>)
    requires
        forall|j: int| 0 <= j < out.len() ==> is_allowed_event(#[trigger] out[j]),
        out.no_duplicates(),
    ensures
        normalize_events(out) == Ok::<Seq<Seq<char>>, Seq<char>>(out),
    decreases out.len(),
{
    if out.len() > 0 {
        let prev = out.drop_last();
        assert forall|a: int, b: int| 0 <= a < prev.len() && 0 <= b < prev.len() && a != b implies
            prev[a] != prev[b] by {
            assert(out[a] != out[b]);
        }
        lemma_normalize_fixed(prev);
        assert(is_allowed_event(out[out.len() - 1]));
        lemma_allowed_trimmed(out.last());
        if prev.contains(out.last()) {
            let k = choose|k: int| 0 <= k < prev.len() && prev[k] == out.last();
            assert(out[k] == out[out.len() - 1]);
        }
        assert(prev.push(out.last()) == out);
    } else {
        assert(out =~= Seq::<Seq<char>>::empty());
    }
}

/// An accepted event list is not empty, holds only allowed events, each once;
/// it holds every given event, trimmed, and nothing else; and it is accepted
/// again unchanged.
pub proof fn law_validate_events(events: Seq<Seq<char>>)
    ensures
        spec_validate_events(events) matches Ok(out) ==> {
            &&& out.len() > 0
            &&& forall|j: int| 0 <= j < out.len() ==> is_allowed_event(#[trigger] out[j])
            &&& out.no_duplicates()
            &&& forall|i: int| 0 <= i < events.len() ==> out.contains(trim(#[trigger] events[i]))
            &&& forall|j: int| 0 <= j < out.len() ==> exists|i: int|
                0 <= i < events.len() && #[trigger] out[j] == trim(#[trigger] events[i])
            &&& spec_validate_events(out) == Ok::<Seq<Seq<char>>, Seq<char>>(out)
        },
{
    lemma_normalize_facts(events);
    if let Ok(out) = spec_validate_events(events) {
        lemma_normalize_fixed(out);
    }
}

/// Normalising succeeds when every event, trimmed, is allowed.
proof fn lemma_normalize_ok(events: Seq<Seq<char>>)
    requires
        forall|i: int| 0 <= i < events.len() ==> is_allowed_event(trim(#[trigger] events[i])),
    ensures
        normalize_events(events) is Ok,
    decreases events.len(),
{
    if events.len() > 0 {
        let prev = events.drop_last();
        assert forall|i: int| 0 <= i < prev.len() implies is_allowed_event(trim(#[trigger] prev[i])) by {
            assert(prev[i] == events[i]);
        }
        lemma_normalize_ok(prev);
        assert(is_allowed_event(trim(events[events.len() - 1])));
    }
}

/// Every one of the five documented events (`file.uploaded`, `file.deleted`,
/// `file.duplicate_detected`, `file.optimized`, `file.failed`) may be
/// subscribed to: any non-empty list of them, in any order and with repeats,
/// is accepted, and a list of just one of them is accepted as it is.
pub proof fn law_documented_events_accepted(events: Seq<Seq<char>>)
    requires
        events.len() > 0,
        forall|i: int|
            0 <= i < events.len() ==> {
                let e = #[trigger] events[i];
                ||| e == "file.uploaded"@
                ||| e == "file.deleted"@
                ||| e == "file.duplicate_detected"@
                ||| e == "file.optimized"@
                ||| e == "file.failed"@
            },
    ensures
        spec_validate_events(events) is Ok,
        events.len() == 1 ==> spec_validate_events(events) == Ok::<Seq<Seq<char>>, Seq<char>>(events),
{
    assert forall|i: int| 0 <= i < events.len() implies is_allowed_event(trim(#[trigger] events[i])) by {
        assert(is_allowed_event(events[i]));
        lemma_allowed_trimmed(events[i]);
    }
    lemma_normalize_ok(events);
    if events.len() == 1 {
        let e = events[0];
        assert(is_allowed_event(e));
        lemma_allowed_trimmed(e);
        assert(events.drop_last() =~= Seq::<Seq<char>>::empty());
        assert(normalize_events(events.drop_last()) == Ok::<Seq<Seq<char>>, Seq<char>>(Seq::empty()));
        assert(Seq::<Seq<char>>::empty().push(e) =~= events);
    }
}

fn contains_string(list: &Vec<String>, item: &str) -> (r: bool)
    ensures
        r == views(list@).contains(item@),
{
    let n = list.len();
    for i in 0..n
        invariant
            n == list@.len(),
            forall|j: int| 0 <= j < i ==> list@[j]@ != item@,
    {
        if is_literal(list[i].as_str(), item) {
            assert(views(list@)[i as int] == item@);
            return true;
        }
    }
    proof {
        if views(list@).contains(item@) {
            let j = choose|j: int| 0 <= j < views(list@).len() && views(list@)[j] == item@;
            assert(list@[j]@ == item@);
        }
    }
    false
}

/// Checks and normalises a webhook's event list.
pub fn validate_events(events: Vec<String>) -> (r: Result<Vec<String>, ApiError>)
    ensures
        r matches Ok(v) ==> spec_validate_events(views(events@)) == Ok::<
            Seq<Seq<char>>,
            Seq<char>,
        >(views(v@)),
        r matches Err(e) ==> (spec_validate_events(views(events@)) matches Err(m) && e.is_validation(
            m,
        )),
{
    if events.len() == 0 {
        return Err(ApiError::validation("at least one webhook event is required"));
    }
    let mut normalized: Vec<String> = Vec::new();
    let n = events.len();
    assert(views(events@).take(0) =~= Seq::<Seq<char>>::empty());
    assert(views(normalized@) =~= Seq::<Seq<char>>::empty());
    for i in 0..n
        invariant
            n == events@.len(),
            normalize_events(views(events@).take(i as int)) == Ok::<Seq<Seq<char>>, Seq<char>>(
                views(normalized@),
            ),
    {
        proof {
            assert(views(events@).take(i + 1).drop_last() == views(events@).take(i as int));
            assert(views(events@).take(i + 1).last() == events@[i as int]@);
        }
        let event = string_of(&trim_exec(&chars_of(events[i].as_str())));
        if !allowed_event_exec(event.as_str()) {
            let msg = concat2("unsupported webhook event: ", event.as_str());
            proof {
                lemma_normalize_err_prefix(views(events@), i + 1);
            }
            return Err(ApiError::Validation(msg));
        }
        if !contains_string(&normalized, event.as_str()) {
            let ghost before = normalized@;
            normalized.push(event);
            assert(views(normalized@) == views(before).push(event@));
        }
    }
    assert(views(events@).take(n as int) == views(events@));
    Ok(normalized)
}

proof fn lemma_normalize_err_prefix(events: Seq<Seq<char>>, k: int)
    requires
        0 <= k <= events.len(),
        normalize_events(events.take(k)) is Err,
    ensures
        normalize_events(events) == normalize_events(events.take(k)),
    decreases events.len() - k,
{
    if k < events.len() {
        assert(events.take(k + 1).drop_last() == events.take(k));
        lemma_normalize_err_prefix(events, k + 1);
    } else {
        assert(events.take(k) == events);
    }
}

/// A webhook signing secret: trimmed, and at least sixteen bytes long.
pub open spec fn spec_validate_secret(secret: Seq<char>) -> Option<Seq<char>> {
    if encode_utf8(trim(secret)).len() < 16 {
        None
    } else {
        Some(trim(secret))
    }
}

/// Checks a webhook signing secret and returns it trimmed.
pub fn validate_secret(secret: &str) -> (r: Result<String, ApiError>)
    ensures
        r matches Ok(s) ==> spec_validate_secret(secret@) == Some(s@),
        r matches Err(e) ==> spec_validate_secret(secret@) is None && e.is_validation(
            "webhook secret must be at least 16 characters"@,
        ),
{
    let t = string_of(&trim_exec(&chars_of(secret)));
    if t.as_str().as_bytes().len() < 16 {
        return Err(ApiError::validation("webhook secret must be at least 16 characters"));
    }
    Ok(t)
}

/// A fresh webhook signing secret of 48 random ASCII letters and digits.
pub fn random_secret() -> (r: String)
    ensures
        r@.len() == 48,
        all_alnum(r@),
{
    random_string(48)
}

/// The string entries of a JSON list, in order; non-strings are skipped.
pub open spec fn string_entries(items: Seq<JsonView>) -> Seq<Seq<char>>
    decreases items.len(),
{
    if items.len() == 0 {
        Seq::empty()
    } else {
        match items.last().str_view() {
            Some(s) => string_entries(items.drop_last()).push(s),
            None => string_entries(items.drop_last()),
        }
    }
}

/// The events a stored webhook subscribes to: the strings of its JSON list, or none when the
/// stored value is not a list.
pub open spec fn spec_event_list(events: JsonView) -> Seq<Seq<char>> {
    match events {
        JsonView::Array(items) => string_entries(items),
        _ => Seq::empty(),
    }
}

/// Reads the event list of a stored webhook.
pub fn event_list(events: &JsonValue) -> (r: Vec<String>)
    ensures
        views(r@) == spec_event_list(events@),
{
    let mut out: Vec<String> = Vec::new();
    match events {
        JsonValue::Array(items) => {
            let n = items.len();
            let ghost vs = json_views(items@);
            proof {
                lemma_json_views(items@);
                assert(vs.take(0) =~= Seq::<JsonView>::empty());
                assert(views(out@) =~= Seq::<Seq<char>>::empty());
            }
            for i in 0..n
                invariant
                    n == items@.len(),
                    vs == json_views(items@),
                    vs.len() == n,
                    forall|j: int| 0 <= j < n ==> #[trigger] vs[j] == items@[j]@,
                    events@ == JsonView::Array(vs),
                    views(out@) == string_entries(vs.take(i as int)),
            {
                proof {
                    assert(vs.take(i + 1).drop_last() == vs.take(i as int));
                    assert(vs.take(i + 1).last() == vs[i as int]);
                }
                match &items[i] {
                    JsonValue::Str(s) => {
                        let ghost before = out@;
                        out.push(s.clone());
                        assert(views(out@) == views(before).push(s@));
                    },
                    _ => {},
                }
            }
            assert(vs.take(n as int) == vs);
        },
        _ => {},
    }
    out
}

/// Whether a stored webhook subscribes to `event`.
pub open spec fn spec_subscribes_to(events: JsonView, event: Seq<char>) -> bool {
    events matches JsonView::Array(items) && exists|i: int|
        0 <= i < items.len() && (#[trigger] items[i]).str_view() == Some(event)
}

/// Whether a stored webhook subscribes to `event`.
pub fn subscribes_to(events: &JsonValue, event: &str) -> (r: bool)
    ensures
        r == spec_subscribes_to(events@, event@),
{
    match events {
        JsonValue::Array(items) => {
            let n = items.len();
            let ghost vs = json_views(items@);
            proof {
                lemma_json_views(items@);
            }
            for i in 0..n
                invariant
                    n == items@.len(),
                    vs == json_views(items@),
                    vs.len() == n,
                    forall|j: int| 0 <= j < n ==> #[trigger] vs[j] == items@[j]@,
                    events@ == JsonView::Array(vs),
                    forall|j: int| 0 <= j < i ==> (#[trigger] vs[j]).str_view() != Some(event@),
            {
                match &items[i] {
                    JsonValue::Str(s) => {
                        if is_literal(s.as_str(), event) {
                            assert(vs[i as int].str_view() == Some(event@));
                            return true;
                        }
                    },
                    _ => {},
                }
            }
            false
        },
        _ => false,
    }
}

} // verus!

verus! {

/// An active webhook of a project, as the event emitter reads it.
pub struct WebhookTarget {
    pub id: String,
    pub url: String,
    pub secret: String,
    pub events: JsonValue,
}

/// The job payload that delivers `event` to one webhook.
pub open spec fn is_webhook_job_payload(
    p: JsonView,
    hook: WebhookTarget,
    project_id: Seq<char>,
    file_id: Option<Seq<char>>,
    event: Seq<char>,
    data: JsonView,
) -> bool {
    &&& p.get_str("webhookId"@) == Some(hook.id@)
    &&& p.get_str("projectId"@) == Some(project_id)
    &&& match file_id {
        Some(f) => p.get_str("fileId"@) == Some(f),
        None => p.get("fileId"@) == Some(JsonView::Null),
    }
    &&& p.get_str("event"@) == Some(event)
    &&& p.get_str("url"@) == Some(hook.url@)
    &&& p.get_str("secret"@) == Some(hook.secret@)
    &&& p.get("createdAt"@) matches Some(JsonView::Str(_))
    &&& p.get("data"@) == Some(data)
}

/// Builds the job payload that delivers `event` to one webhook, stamped now.
pub fn webhook_job_payload(
    hook: &WebhookTarget,
    project_id: &str,
    file_id: Option<&str>,
    event: &str,
    data: JsonValue,
) -> (r: JsonValue)
    ensures
        is_webhook_job_payload(r@, *hook, project_id@, crate::text::opt_str_view(file_id), event@, data@),
{
    let file = match file_id {
        Some(f) => JsonValue::Str(f.to_owned()),
        None => JsonValue::Null,
    };
    let ghost dv = data@;
    let fields: Vec<(String, JsonValue)> = vec![
        ("webhookId".to_owned(), JsonValue::Str(hook.id.clone())),
        ("projectId".to_owned(), JsonValue::Str(project_id.to_owned())),
        ("fileId".to_owned(), file),
        ("event".to_owned(), JsonValue::Str(event.to_owned())),
        ("url".to_owned(), JsonValue::Str(hook.url.clone())),
        ("secret".to_owned(), JsonValue::Str(hook.secret.clone())),
        ("createdAt".to_owned(), JsonValue::Str(crate::ids::now_rfc3339())),
        ("data".to_owned(), data),
    ];
    proof {
        reveal_strlit("webhookId");
        reveal_strlit("projectId");
        reveal_strlit("fileId");
        reveal_strlit("event");
        reveal_strlit("url");
        reveal_strlit("secret");
        reveal_strlit("createdAt");
        reveal_strlit("data");
        crate::json::lemma_field_views(fields@);
        reveal_with_fuel(crate::json::field_of, 9);
        let fv = crate::json::field_views(fields@);
        assert(fv.drop_first()[0] == fv[1]);
        assert(fv.drop_first().drop_first()[0] == fv[2]);
        assert(fv.drop_first().drop_first().drop_first()[0] == fv[3]);
        assert(fv.drop_first().drop_first().drop_first().drop_first()[0] == fv[4]);
        assert(fv.drop_first().drop_first().drop_first().drop_first().drop_first()[0] == fv[5]);
        assert(fv.drop_first().drop_first().drop_first().drop_first().drop_first().drop_first()[0] == fv[6]);
        assert(fv.drop_first().drop_first().drop_first().drop_first().drop_first().drop_first().drop_first()[0] == fv[7]);
        let keys = seq!["webhookId"@, "projectId"@, "fileId"@, "event"@, "url"@, "secret"@, "createdAt"@, "data"@];
        assert forall|i: int, j: int| 0 <= i < 8 && 0 <= j < 8 && i != j implies keys[i] != keys[j] by {
            assert(keys[i].len() != keys[j].len() || keys[i][0] != keys[j][0]);
        }
        assert(keys[0] != keys[1] && keys[0] != keys[2] && keys[1] != keys[2]);
    }
    JsonValue::Object(fields)
}

/// The event name of the upload-log entry written when a webhook delivery is queued.
pub fn delivery_log_event(event: &str) -> (r: String)
    ensures
        r@ == "webhook."@ + event@,
{
    concat2("webhook.", event)
}

/// The hooks among `hooks` that subscribe to `event`, in order.
pub open spec fn subscribed(hooks: Seq<WebhookTarget>, event: Seq<char>) -> Seq<WebhookTarget> {
    hooks.filter(|h: WebhookTarget| spec_subscribes_to(h.events@, event))
}

/// The delivery jobs for a file event: one per hook that subscribes to the event, in order,
/// each allowed five attempts.
pub fn webhook_jobs(
    hooks: &Vec<WebhookTarget>,
    project_id: &str,
    file_id: Option<&str>,
    event: &str,
    data: &JsonValue,
) -> (r: Vec<crate::jobs::JobEnvelope>)
    ensures
        r@.len() == subscribed(hooks@, event@).len(),
        forall|k: int| 0 <= k < r@.len() ==> {
            &&& (#[trigger] r@[k]).kind is SendWebhook
            &&& r@[k].max_attempts == 5
            &&& r@[k].attempts == 0
            &&& is_webhook_job_payload(r@[k].payload@, subscribed(hooks@, event@)[k], project_id@, crate::text::opt_str_view(file_id), event@, data@)
        },
{
    let ghost pred = |h: WebhookTarget| spec_subscribes_to(h.events@, event@);
    let mut out: Vec<crate::jobs::JobEnvelope> = Vec::new();
    let n = hooks.len();
    for i in 0..n
        invariant
            n == hooks@.len(),
            pred == (|h: WebhookTarget| spec_subscribes_to(h.events@, event@)),
            out@.len() == hooks@.take(i as int).filter(pred).len(),
            forall|k: int| 0 <= k < out@.len() ==> {
                &&& (#[trigger] out@[k]).kind is SendWebhook
                &&& out@[k].max_attempts == 5
                &&& out@[k].attempts == 0
                &&& is_webhook_job_payload(out@[k].payload@, hooks@.take(i as int).filter(pred)[k], project_id@, crate::text::opt_str_view(file_id), event@, data@)
            },
    {
        let ghost prev = hooks@.take(i as int);
        proof {
            assert(hooks@.take(i + 1) == prev.push(hooks@[i as int]));
            crate::json::lemma_filter_push_pub(prev, hooks@[i as int], pred);
        }
        if subscribes_to(&hooks[i].events, event) {
            let payload = webhook_job_payload(&hooks[i], project_id, file_id, event, crate::json::clone_json(data));
            let job = crate::jobs::JobEnvelope::new(crate::jobs::JobKind::SendWebhook, payload).with_max_attempts(5);
            out.push(job);
        }
    }
    assert(hooks@.take(n as int) == hooks@);
    out
}

} // verus!

verus! {

/// A request to create a webhook.
pub struct CreateRequest {
    pub project_id: String,
    pub url: String,
    pub events: Vec<String>,
    pub secret: Option<String>,
    pub is_active: Option<bool>,
}

/// A request to change a webhook; what is absent stays.
pub struct UpdateRequest {
    pub url: Option<String>,
    pub events: Option<Vec<String>>,
    pub secret: Option<String>,
    pub is_active: Option<bool>,
}

/// A stored webhook.
pub struct WebhookRecord {
    pub id: String,
    pub project_id: String,
    pub url: String,
    pub secret: String,
    pub events: Vec<String>,
    pub is_active: bool,
}

/// A webhook as the API shows it.
pub struct WebhookView {
    pub id: String,
    pub project_id: String,
    pub url: String,
    pub events: Vec<String>,
    pub is_active: bool,
    pub created_at: String,
    pub updated_at: String,
}

/// A newly created webhook, shown once with its signing secret.
pub struct CreatedWebhookView {
    pub webhook: WebhookView,
    pub signing_secret: String,
}

/// A delivery attempt as the API shows it.
pub struct WebhookDeliveryLogView {
    pub id: String,
    pub webhook_id: String,
    pub project_id: String,
    pub file_id: Option<String>,
    pub event: String,
    pub status: String,
    pub attempt: i32,
    pub status_code: Option<i32>,
    pub error: Option<String>,
    pub request: JsonValue,
    pub response: JsonValue,
    pub created_at: String,
}

/// The webhook a create request makes, under the id `id`: its URL and events
/// checked and normalised, its secret as given (else a fresh random one), and
/// active unless asked otherwise. The URL is checked before the events.
pub fn new_webhook(req: CreateRequest, id: String) -> (r: Result<WebhookRecord, ApiError>)
    ensures
        spec_validate_url(req.url@) is None ==> (r matches Err(e) && e.is_validation(
            "webhook url must be http or https"@,
        )),
        spec_validate_url(req.url@) is Some ==> match spec_validate_events(views(req.events@)) {
            Err(m) => r matches Err(e) && e.is_validation(m),
            Ok(events) => r matches Ok(w) && {
                &&& w.id == id
                &&& w.project_id == req.project_id
                &&& Some(w.url@) == spec_validate_url(req.url@)
                &&& views(w.events@) == events
                &&& w.is_active == match req.is_active { Some(b) => b, None => true }
                &&& match req.secret {
                    Some(s) => w.secret == s,
                    None => w.secret@.len() == 48 && all_alnum(w.secret@),
                }
            },
        },
{
    let url = validate_url(req.url.as_str())?;
    let events = validate_events(req.events)?;
    let secret = match req.secret {
        Some(s) => s,
        None => random_secret(),
    };
    let is_active = match req.is_active {
        Some(b) => b,
        None => true,
    };
    Ok(WebhookRecord { id, project_id: req.project_id, url, secret, events, is_active })
}

/// A webhook after an update: each given field checked and replaced, in the
/// order URL, events, secret, activity; the first refusal is the error.
pub open spec fn spec_update_fault(req: UpdateRequest) -> Option<Seq<char>> {
    let url_fault = match req.url {
        Some(u) => if spec_validate_url(u@) is None { Some("webhook url must be http or https"@) } else { None },
        None => None,
    };
    let events_fault = match req.events {
        Some(ev) => match spec_validate_events(views(ev@)) {
            Err(m) => Some(m),
            Ok(_) => None,
        },
        None => None,
    };
    let secret_fault = match req.secret {
        Some(s) => if spec_validate_secret(s@) is None {
            Some("webhook secret must be at least 16 characters"@)
        } else {
            None
        },
        None => None,
    };
    if url_fault is Some { url_fault } else if events_fault is Some { events_fault } else { secret_fault }
}

/// Applies an update to a stored webhook.
pub fn apply_webhook_update(rec: WebhookRecord, req: UpdateRequest) -> (r: Result<WebhookRecord, ApiError>)
    ensures
        spec_update_fault(req) matches Some(m) ==> (r matches Err(e) && e.is_validation(m)),
        spec_update_fault(req) is None ==> (r matches Ok(w) && {
            &&& w.id == rec.id
            &&& w.project_id == rec.project_id
            &&& match req.url {
                Some(u) => Some(w.url@) == spec_validate_url(u@),
                None => w.url == rec.url,
            }
            &&& match req.events {
                Some(ev) => spec_validate_events(views(ev@)) == Ok::<Seq<Seq<char>>, Seq<char>>(views(w.events@)),
                None => w.events == rec.events,
            }
            &&& match req.secret {
                Some(s) => Some(w.secret@) == spec_validate_secret(s@),
                None => w.secret == rec.secret,
            }
            &&& w.is_active == match req.is_active { Some(b) => b, None => rec.is_active }
        }),
{
    let mut w = rec;
    if let Some(u) = req.url {
        w.url = validate_url(u.as_str())?;
    }
    if let Some(ev) = req.events {
        w.events = validate_events(ev)?;
    }
    if let Some(sec) = req.secret {
        w.secret = validate_secret(sec.as_str())?;
    }
    if let Some(b) = req.is_active {
        w.is_active = b;
    }
    Ok(w)
}

} // verus!
