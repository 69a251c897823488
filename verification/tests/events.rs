use filebase::jobs::JobKind;
use filebase::json::JsonValue;
use filebase::webhooks::{delivery_log_event, webhook_job_payload, webhook_jobs, WebhookTarget};

fn hook(id: &str, events: &[&str]) -> WebhookTarget {
    WebhookTarget {
        id: id.into(),
        url: format!("https://{id}.example"),
        secret: format!("{id}-secret"),
        events: JsonValue::Array(events.iter().map(|e| JsonValue::Str(e.to_string())).collect()),
    }
}

fn field<'a>(v: &'a JsonValue, key: &str) -> &'a JsonValue {
    match v {
        JsonValue::Object(f) => &f.iter().find(|(k, _)| k == key).expect(key).1,
        other => panic!("{:?}", other),
    }
}

#[test]
fn one_job_per_subscribed_hook() {
    let hooks = vec![
        hook("a", &["file.uploaded"]),
        hook("b", &["file.deleted"]),
        hook("c", &["file.deleted", "file.uploaded"]),
    ];
    let data = JsonValue::Object(vec![("n".into(), JsonValue::Number("1".into()))]);
    let jobs = webhook_jobs(&hooks, "p1", Some("f1"), "file.uploaded", &data);
    assert_eq!(jobs.len(), 2);
    for (job, id) in jobs.iter().zip(["a", "c"]) {
        assert_eq!(job.kind, JobKind::SendWebhook);
        assert_eq!(job.max_attempts, 5);
        assert_eq!(job.attempts, 0);
        assert!(matches!(field(&job.payload, "webhookId"), JsonValue::Str(s) if s == id));
        assert!(matches!(field(&job.payload, "projectId"), JsonValue::Str(s) if s == "p1"));
        assert!(matches!(field(&job.payload, "fileId"), JsonValue::Str(s) if s == "f1"));
        assert!(matches!(field(&job.payload, "event"), JsonValue::Str(s) if s == "file.uploaded"));
        assert!(matches!(field(&job.payload, "secret"), JsonValue::Str(s) if s == &format!("{id}-secret")));
        assert!(matches!(field(&job.payload, "data"), JsonValue::Object(f) if f.len() == 1));
    }
    assert!(webhook_jobs(&hooks, "p1", None, "file.failed", &data).is_empty());
}

#[test]
fn payload_without_file_has_null_file_id() {
    let p = webhook_job_payload(&hook("a", &[]), "p", None, "file.deleted", JsonValue::Null);
    assert!(matches!(field(&p, "fileId"), JsonValue::Null));
    assert!(matches!(field(&p, "createdAt"), JsonValue::Str(s) if s.contains('T')));
}

#[test]
fn delivery_log_events_are_prefixed() {
    assert_eq!(delivery_log_event("file.uploaded"), "webhook.file.uploaded");
}
