use vstd::prelude::*;
use vstd::string::StringSliceAdditionalSpecFns;
use crate::digest::{hmac_sha256, sign_payload};
use crate::jobs::{JobEnvelope, JobKind};
use crate::json::{JsonValue, JsonView, remove_key, json_without};
use crate::text::{concat2, hex_lower};

verus! {

/// The field of a send-webhook job's payload that a delivery needs, or the error message.
pub open spec fn spec_required_payload_str(job: JobEnvelope, key: Seq<char>) -> Result<Seq<char>, Seq<char>> {
    match job.payload@.get_str(key) {
        Some(s) => Ok(s),
        None => Err("send-webhook job missing payload field: "@ + key),
    }
}

/// Reads a string field that a send-webhook job's payload must carry.
pub fn required_payload_str(job: &JobEnvelope, key: &str) -> (r: Result<String, String>)
    ensures
        r matches Ok(s) ==> spec_required_payload_str(*job, key@) == Ok::<Seq<char>, Seq<char>>(s@),
        r matches Err(m) ==> spec_required_payload_str(*job, key@) == Err::<Seq<char>, Seq<char>>(m@),
{
    match job.payload.get_str(key) {
        Some(s) => Ok(s),
        None => Err(concat2("send-webhook job missing payload field: ", key)),
    }
}

/// What a webhook delivery needs from its job.
pub struct WebhookDelivery {
    pub url: String,
    pub secret: String,
    pub event: String,
    pub webhook_id: String,
    pub project_id: String,
    pub file_id: Option<String>,
}

/// Reads the delivery fields of a send-webhook job: `url`, `secret`, `event`, `webhookId` and
/// `projectId` are required (the first missing one is reported), `fileId` is optional.
pub fn webhook_delivery(job: &JobEnvelope) -> (r: Result<WebhookDelivery, String>)
    ensures
        r matches Ok(d) ==> {
            &&& job.payload@.get_str("url"@) == Some(d.url@)
            &&& job.payload@.get_str("secret"@) == Some(d.secret@)
            &&& job.payload@.get_str("event"@) == Some(d.event@)
            &&& job.payload@.get_str("webhookId"@) == Some(d.webhook_id@)
            &&& job.payload@.get_str("projectId"@) == Some(d.project_id@)
            &&& job.payload@.get_str("fileId"@) == crate::storage::ov(d.file_id)
        },
        r matches Err(m) ==> {
            let missing = if job.payload@.get_str("url"@) is None {
                "url"@
            } else if job.payload@.get_str("secret"@) is None {
                "secret"@
            } else if job.payload@.get_str("event"@) is None {
                "event"@
            } else if job.payload@.get_str("webhookId"@) is None {
                "webhookId"@
            } else {
                "projectId"@
            };
            &&& m@ == "send-webhook job missing payload field: "@ + missing
            &&& job.payload@.get_str(missing) is None
        },
{
    let url = required_payload_str(job, "url")?;
    let secret = required_payload_str(job, "secret")?;
    let event = required_payload_str(job, "event")?;
    let webhook_id = required_payload_str(job, "webhookId")?;
    let project_id = required_payload_str(job, "projectId")?;
    let file_id = job.payload.get_str("fileId");
    Ok(WebhookDelivery { url, secret, event, webhook_id, project_id, file_id })
}

/// The payload that is sent: the job's payload without its `secret`.
pub fn webhook_payload(job: &JobEnvelope) -> (r: JsonValue)
    ensures
        !r@.has_key("secret"@),
        r@ == json_without(job.payload@, "secret"@),
{
    remove_key(crate::json::clone_json(&job.payload), "secret")
}

/// The value of the signature header: `sha256=` and the hex HMAC-SHA256 of the body.
pub fn signature_header(secret: &str, body: &[u8]) -> (r: String)
    ensures
        r@ == "sha256="@ + hex_lower(hmac_sha256(secret.spec_bytes(), body@)),
{
    let sig = sign_payload(secret, body);
    concat2("sha256=", sig.as_str())
}

/// The headers of a webhook delivery, in order.
pub fn delivery_headers(event: &str, job_id: &str, signature: &str) -> (r: Vec<(String, String)>)
    ensures
        r@.len() == 5,
        r@[0].0@ == "content-type"@ && r@[0].1@ == "application/json"@,
        r@[1].0@ == "user-agent"@ && r@[1].1@ == "FileBase-Webhook/0.1"@,
        r@[2].0@ == "x-filebase-event"@ && r@[2].1@ == event@,
        r@[3].0@ == "x-filebase-delivery"@ && r@[3].1@ == job_id@,
        r@[4].0@ == "x-filebase-signature"@ && r@[4].1@ == signature@,
{
    let mut h: Vec<(String, String)> = Vec::new();
    h.push(("content-type".to_owned(), "application/json".to_owned()));
    h.push(("user-agent".to_owned(), "FileBase-Webhook/0.1".to_owned()));
    h.push(("x-filebase-event".to_owned(), event.to_owned()));
    h.push(("x-filebase-delivery".to_owned(), job_id.to_owned()));
    h.push(("x-filebase-signature".to_owned(), signature.to_owned()));
    h
}

/// How a delivery went, as recorded.
pub struct DeliveryOutcome {
    pub delivered: bool,
    pub error: Option<String>,
}

/// The outcome of a delivery that got an HTTP response: delivered on a 2xx status, otherwise
/// failed with a message naming the status (as the status displays itself).
pub fn response_outcome(status_code: u16, status_display: &str) -> (r: DeliveryOutcome)
    ensures
        r.delivered == (200 <= status_code < 300),
        r.delivered ==> r.error is None,
        !r.delivered ==> (r.error matches Some(m) && m@ == "webhook delivery failed with status "@ + status_display@),
{
    if 200 <= status_code && status_code < 300 {
        DeliveryOutcome { delivered: true, error: None }
    } else {
        DeliveryOutcome { delivered: false, error: Some(concat2("webhook delivery failed with status ", status_display)) }
    }
}

/// The status text a delivery is recorded with.
pub fn outcome_status(outcome: &DeliveryOutcome) -> (r: &'static str)
    ensures
        outcome.delivered ==> r@ == "delivered"@,
        !outcome.delivered ==> r@ == "failed"@,
{
    if outcome.delivered { "delivered" } else { "failed" }
}

/// The attempt number recorded for a delivery: one more than the job's attempts so far,
/// capped at `i32::MAX`.
pub fn delivery_attempt(attempts: u32) -> (r: i32)
    ensures
        r == if attempts + 1 > i32::MAX { i32::MAX as int } else { attempts + 1 },
{
    if attempts >= 2147483647u32 {
        i32::MAX
    } else {
        (attempts + 1) as i32
    }
}

/// How a delivery ends the job: done when delivered, otherwise failed with the
/// delivery's error.
pub fn delivery_result(outcome: DeliveryOutcome) -> (r: Result<(), String>)
    ensures
        outcome.delivered ==> r is Ok,
        !outcome.delivered ==> r is Err,
        !outcome.delivered && outcome.error is Some ==> r == Err::<(), String>(outcome.error->Some_0),
{
    if outcome.delivered {
        Ok(())
    } else {
        match outcome.error {
            Some(m) => Err(m),
            None => Err(String::new()),
        }
    }
}

/// The request part of a delivery record: the job id, the URL and the payload sent.
pub fn delivery_request_json(job: &JobEnvelope, url: &str) -> (r: JsonValue)
    ensures
        r@ == JsonView::Object(seq![
            ("jobId"@, JsonView::Str(job.id@)),
            ("url"@, JsonView::Str(url@)),
            ("payload"@, json_without(job.payload@, "secret"@)),
        ]),
{
    let fields: Vec<(String, JsonValue)> = vec![
        crate::json::member("jobId", crate::json::string_json(job.id.as_str())),
        crate::json::member("url", crate::json::string_json(url)),
        crate::json::member("payload", webhook_payload(job)),
    ];
    proof {
        crate::json::lemma_field_views(fields@);
        assert(crate::json::field_views(fields@) =~= seq![
            ("jobId"@, JsonView::Str(job.id@)),
            ("url"@, JsonView::Str(url@)),
            ("payload"@, json_without(job.payload@, "secret"@)),
        ]);
    }
    crate::json::object(fields)
}

/// The JSON value of an optional response body.
pub open spec fn body_view(body: Option<String>) -> JsonView {
    match body {
        Some(b) => JsonView::Str(b@),
        None => JsonView::Null,
    }
}

/// The response part of a delivery record: the response body, or null.
pub fn delivery_response_json(body: Option<String>) -> (r: JsonValue)
    ensures
        r@ == JsonView::Object(seq![("body"@, body_view(body))]),
{
    let ghost bv = body_view(body);
    let v = match body {
        Some(b) => JsonValue::Str(b),
        None => JsonValue::Null,
    };
    let fields: Vec<(String, JsonValue)> = vec![crate::json::member("body", v)];
    proof {
        crate::json::lemma_field_views(fields@);
        assert(crate::json::field_views(fields@) =~= seq![("body"@, bv)]);
    }
    crate::json::object(fields)
}

/// The outcome of a delivery whose request did not get a response: failed,
/// with the transport's message.
pub fn transport_outcome(error: String) -> (r: DeliveryOutcome)
    ensures
        !r.delivered,
        r.error == Some(error),
{
    DeliveryOutcome { delivered: false, error: Some(error) }
}

/// What the worker does for a kind of job: webhook jobs are delivered; the
/// other kinds are accepted and finish at once.
pub fn delivers_webhook(kind: &JobKind) -> (r: bool)
    ensures
        r <==> *kind is SendWebhook,
{
    match kind {
        JobKind::SendWebhook => true,
        _ => false,
    }
}

} // verus!
