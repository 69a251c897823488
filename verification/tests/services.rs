use filebase::backends::{
    check_relative_path, ftp_dir_chain, ftp_missing_file, parent_of, sftp_missing_file, StorageAdapter,
};
use filebase::config::{parse_unsigned, Config, ConfigError, DuplicateStrategy, IntErrorKind, StorageDriver};
use filebase::crypto::decrypt;
use filebase::error::ApiError;
use filebase::files::{filter_files, mime_filter, parse_date_filter, search_term, FileView};
use filebase::intake::{StreamState, UploadForm};
use filebase::json::{remove_key, JsonValue};
use filebase::jobs::{after_run, failed, kind_name, retried, FileBaseError, JobEnvelope, JobKind, QueueAction, ReservedJob};
use filebase::presets::check_preset_connection;
use filebase::storage::{
    apply_update, build_adapter, build_storage, connection_view, join_path, join_url, test_report,
    LocalStorageAdapter, StorageBackend, StorageInput, StorageRecord, UpdateRequest,
};
use filebase::webhooks::{
    apply_webhook_update, event_list, new_webhook, subscribes_to, validate_events, validate_secret,
    validate_url, CreateRequest, UpdateRequest as WebhookUpdate, WebhookRecord,
};
use filebase::worker::{
    delivers_webhook, delivery_attempt, delivery_headers, delivery_request_json,
    delivery_response_json, outcome_status, response_outcome, signature_header, transport_outcome,
    webhook_delivery, webhook_payload,
};

fn validation<T>(r: Result<T, ApiError>) -> String {
    match r {
        Err(ApiError::Validation(m)) => m,
        Err(e) => panic!("expected a validation error, got {:?}", e),
        Ok(_) => panic!("expected a validation error, got a success"),
    }
}

fn vars(pairs: &[(&str, &str)]) -> Vec<(String, String)> {
    pairs.iter().map(|(k, v)| (k.to_string(), v.to_string())).collect()
}

fn required_vars() -> Vec<(String, String)> {
    vars(&[
        ("APP_URL", "https://api.example.com"),
        ("DASHBOARD_URL", "https://dash.example.com"),
        ("DATABASE_URL", "postgres://db"),
        ("REDIS_URL", "redis://cache"),
        ("JWT_SECRET", "jwt"),
        ("ENCRYPTION_KEY", "enc"),
        ("STORAGE_DRIVER", "local"),
        ("PUBLIC_BASE_URL", "https://cdn.example.com"),
    ])
}

#[test]
fn config_defaults() {
    let c = Config::from_vars(&required_vars(), None).unwrap();
    assert_eq!(c.bind_address, "0.0.0.0:8080");
    assert_eq!(c.database_max_connections, 10);
    assert_eq!(c.database_min_connections, 1);
    assert_eq!(c.database_connect_timeout_seconds, 5);
    assert_eq!(c.local_storage_path, "./uploads");
    assert_eq!(c.max_upload_size, 10_485_760);
    assert_eq!(c.auth_rate_limit_per_minute, 10);
    assert_eq!(c.upload_rate_limit_per_minute, 60);
    assert!(matches!(c.storage_driver, StorageDriver::Local));
    assert!(matches!(c.default_duplicate_strategy, DuplicateStrategy::ReturnExisting));
    assert_eq!(c.app_url, "https://api.example.com");
}

#[test]
fn config_reads_given_values() {
    let mut v = required_vars();
    v.push(("MAX_UPLOAD_SIZE".into(), "+2048".into()));
    v.push(("DEFAULT_DUPLICATE_STRATEGY".into(), "reject_duplicate".into()));
    v.push(("LOCAL_STORAGE_PATH".into(), "".into()));
    v.push(("BIND_ADDRESS".into(), "127.0.0.1:9000".into()));
    v[6].1 = "sftp".into();
    let c = Config::from_vars(&v, None).unwrap();
    assert_eq!(c.max_upload_size, 2048);
    assert!(matches!(c.default_duplicate_strategy, DuplicateStrategy::RejectDuplicate));
    assert!(matches!(c.storage_driver, StorageDriver::Sftp));
    assert_eq!(c.local_storage_path, "./uploads");
    assert_eq!(c.bind_address, "127.0.0.1:9000");
}

#[test]
fn config_errors() {
    let mut v = required_vars();
    v.remove(0);
    let e = Config::from_vars(&v, None).err().unwrap();
    assert!(matches!(e, ConfigError::Missing("APP_URL")));
    assert_eq!(e.message(), "missing required environment variable: APP_URL");

    let mut v = required_vars();
    v.push(("DATABASE_MAX_CONNECTIONS".into(), "ten".into()));
    let e = Config::from_vars(&v, None).err().unwrap();
    assert_eq!(e.message(), "invalid value for DATABASE_MAX_CONNECTIONS: invalid digit found in string");

    let mut v = required_vars();
    v.push(("DATABASE_MIN_CONNECTIONS".into(), "4294967296".into()));
    let e = Config::from_vars(&v, None).err().unwrap();
    assert_eq!(e.message(), "invalid value for DATABASE_MIN_CONNECTIONS: number too large to fit in target type");

    let mut v = required_vars();
    v[6].1 = "s3".into();
    let e = Config::from_vars(&v, None).err().unwrap();
    assert!(matches!(&e, ConfigError::Invalid("STORAGE_DRIVER", m) if m == "s3"));

    let mut v = required_vars();
    v.push(("DEFAULT_DUPLICATE_STRATEGY".into(), "keep".into()));
    let e = Config::from_vars(&v, None).err().unwrap();
    assert!(matches!(&e, ConfigError::Invalid("DEFAULT_DUPLICATE_STRATEGY", m) if m == "keep"));

    let mut v = required_vars();
    v[0].1 = String::new();
    assert!(Config::from_vars(&v, None).is_ok());
}

#[test]
fn config_reports_the_first_fault() {
    let v = vars(&[("DATABASE_MAX_CONNECTIONS", "x")]);
    assert!(matches!(Config::from_vars(&v, None).err().unwrap(), ConfigError::Missing("APP_URL")));
    let e = Config::from_vars(&v, Some("invalid socket address syntax".to_string())).err().unwrap();
    assert_eq!(e.message(), "invalid value for BIND_ADDRESS: invalid socket address syntax");
}

#[test]
fn unsigned_numbers() {
    assert_eq!(parse_unsigned("42", 100).unwrap(), 42);
    assert_eq!(parse_unsigned("+7", 100).unwrap(), 7);
    assert_eq!(parse_unsigned("0042", 100).unwrap(), 42);
    assert!(matches!(parse_unsigned("", 100), Err(IntErrorKind::Empty)));
    assert!(matches!(parse_unsigned("+", 100), Err(IntErrorKind::InvalidDigit)));
    assert!(matches!(parse_unsigned("-", 100), Err(IntErrorKind::InvalidDigit)));
    assert!(matches!(parse_unsigned("-1", 100), Err(IntErrorKind::InvalidDigit)));
    assert!(matches!(parse_unsigned(" 1", 100), Err(IntErrorKind::InvalidDigit)));
    assert!(matches!(parse_unsigned("101", 100), Err(IntErrorKind::PosOverflow)));
    assert!(matches!(parse_unsigned("999x", 100), Err(IntErrorKind::PosOverflow)));
    assert_eq!(parse_unsigned("18446744073709551615", u64::MAX).unwrap(), u64::MAX);
    assert!(matches!(parse_unsigned("18446744073709551616", u64::MAX), Err(IntErrorKind::PosOverflow)));
    // the same answers as the standard library
    for s in ["", "+", "-", "12", "+12", "1a", "99999999999", "4294967295", "4294967296"] {
        let ours = parse_unsigned(s, u32::MAX as u64);
        let std = s.parse::<u32>();
        match (ours, std) {
            (Ok(a), Ok(b)) => assert_eq!(a, b as u64),
            (Err(_), Err(_)) => {}
            (a, b) => panic!("{s}: {:?} vs {:?}", a, b),
        }
    }
}

#[test]
fn queue_errors_describe_themselves() {
    assert_eq!(FileBaseError::Queue("down".into()).message(), "queue error: down");
    assert_eq!(FileBaseError::Configuration("x".into()).message(), "configuration error: x");
}

fn job(attempts: u32, max: u32) -> JobEnvelope {
    let mut j = JobEnvelope::new(JobKind::SendWebhook, JsonValue::Null).with_max_attempts(max);
    j.attempts = attempts;
    j
}

#[test]
fn jobs_start_fresh() {
    let j = JobEnvelope::new(JobKind::DeleteFile, JsonValue::Bool(true));
    assert!(j.id.starts_with("job_"));
    assert_eq!(j.id.len(), 36);
    assert_eq!(j.attempts, 0);
    assert_eq!(j.max_attempts, 3);
    assert_eq!(j.created_at, j.updated_at);
    assert_eq!(j.kind, JobKind::DeleteFile);
    assert_eq!(JobEnvelope::new(JobKind::DeleteFile, JsonValue::Null).with_max_attempts(0).max_attempts, 1);
    assert_eq!(JobEnvelope::new(JobKind::DeleteFile, JsonValue::Null).with_max_attempts(7).max_attempts, 7);
}

#[test]
fn job_kind_names() {
    assert_eq!(kind_name(&JobKind::ProcessImage), "process-image");
    assert_eq!(kind_name(&JobKind::UploadToStorage), "upload-to-storage");
    assert_eq!(kind_name(&JobKind::GenerateThumbnail), "generate-thumbnail");
    assert_eq!(kind_name(&JobKind::SendWebhook), "send-webhook");
    assert_eq!(kind_name(&JobKind::DeleteFile), "delete-file");
    assert_eq!(kind_name(&JobKind::CleanupTempFile), "cleanup-temp-file");
}

#[test]
fn retries_until_attempts_run_out() {
    assert!(matches!(after_run(&job(0, 3), true), QueueAction::Complete));
    assert!(matches!(after_run(&job(0, 3), false), QueueAction::Retry));
    assert!(matches!(after_run(&job(1, 3), false), QueueAction::Retry));
    assert!(matches!(after_run(&job(2, 3), false), QueueAction::Fail));
    assert!(matches!(after_run(&job(0, 1), false), QueueAction::Fail));
    assert!(matches!(after_run(&job(u32::MAX, u32::MAX), false), QueueAction::Fail));
    assert!(matches!(after_run(&job(7, 0), false), QueueAction::Fail));
    let r = retried(ReservedJob { raw: "raw".into(), job: job(1, 3) }, "later".into());
    assert_eq!(r.attempts, 2);
    assert_eq!(r.updated_at, "later");
    let f = failed(ReservedJob { raw: "raw".into(), job: job(2, 3) }, "boom".into(), "now".into());
    assert_eq!(f.error, "boom");
    assert_eq!(f.job.attempts, 2);
}

fn webhook_job(payload: JsonValue) -> JobEnvelope {
    JobEnvelope::new(JobKind::SendWebhook, payload)
}

fn obj(fields: &[(&str, JsonValue)]) -> JsonValue {
    JsonValue::Object(fields.iter().map(|(k, v)| (k.to_string(), clone(v))).collect())
}

fn clone(v: &JsonValue) -> JsonValue {
    filebase::json::clone_json(v)
}

fn s(v: &str) -> JsonValue {
    JsonValue::Str(v.into())
}

#[test]
fn webhook_jobs_are_read_and_stripped() {
    let payload = obj(&[
        ("url", s("https://hook")),
        ("secret", s("sekret")),
        ("event", s("file.uploaded")),
        ("webhookId", s("wh_1")),
        ("projectId", s("p_1")),
        ("fileId", JsonValue::Null),
        ("data", obj(&[("n", JsonValue::Number("1".into()))])),
    ]);
    let j = webhook_job(payload);
    let d = webhook_delivery(&j).unwrap();
    assert_eq!(d.url, "https://hook");
    assert_eq!(d.secret, "sekret");
    assert_eq!(d.file_id, None);
    match webhook_payload(&j) {
        JsonValue::Object(f) => {
            assert_eq!(f.len(), 6);
            assert!(f.iter().all(|(k, _)| k != "secret"));
        }
        other => panic!("{:?}", other),
    }
    let missing = webhook_job(obj(&[("url", s("u")), ("secret", s("x"))]));
    assert_eq!(webhook_delivery(&missing).err().unwrap(), "send-webhook job missing payload field: event");
}

#[test]
fn delivery_records() {
    assert_eq!(
        signature_header("key", b"The quick brown fox jumps over the lazy dog"),
        "sha256=f7bc83f430538424b13298e6aa6fb143ef4d59a14946175997479dbc2d1a3cd8"
    );
    let h = delivery_headers("file.uploaded", "job_1", "sha256=x");
    assert_eq!(h[0], ("content-type".to_string(), "application/json".to_string()));
    assert_eq!(h[1], ("user-agent".to_string(), "FileBase-Webhook/0.1".to_string()));
    assert_eq!(h[4], ("x-filebase-signature".to_string(), "sha256=x".to_string()));
    let ok = response_outcome(204, "204 No Content");
    assert!(ok.delivered && ok.error.is_none());
    assert_eq!(outcome_status(&ok), "delivered");
    let bad = response_outcome(500, "500 Internal Server Error");
    assert!(!bad.delivered);
    assert_eq!(bad.error.as_deref(), Some("webhook delivery failed with status 500 Internal Server Error"));
    assert_eq!(outcome_status(&bad), "failed");
    let t = transport_outcome("connection refused".into());
    assert!(!t.delivered);
    assert_eq!(delivery_attempt(0), 1);
    assert_eq!(delivery_attempt(u32::MAX - 1), i32::MAX);
    assert_eq!(delivery_attempt(u32::MAX), i32::MAX);
    assert!(delivers_webhook(&JobKind::SendWebhook));
    assert!(!delivers_webhook(&JobKind::ProcessImage));
    let j = webhook_job(obj(&[("secret", s("x")), ("a", s("b"))]));
    match delivery_request_json(&j, "https://hook") {
        JsonValue::Object(f) => {
            assert_eq!(f[0].0, "jobId");
            assert!(matches!(&f[1].1, JsonValue::Str(u) if u == "https://hook"));
            assert!(matches!(&f[2].1, JsonValue::Object(p) if p.len() == 1 && p[0].0 == "a"));
        }
        other => panic!("{:?}", other),
    }
    assert!(matches!(delivery_response_json(None), JsonValue::Object(f) if matches!(f[0].1, JsonValue::Null)));
}

#[test]
fn json_key_removal() {
    let v = obj(&[("a", s("1")), ("b", s("2"))]);
    match remove_key(v, "a") {
        JsonValue::Object(f) => assert_eq!(f.len(), 1),
        other => panic!("{:?}", other),
    }
    assert!(matches!(remove_key(s("x"), "a"), JsonValue::Str(_)));
}

#[test]
fn webhook_rules() {
    assert_eq!(validate_url("  https://x.io/h ").unwrap(), "https://x.io/h");
    assert_eq!(validate_url("http://x").unwrap(), "http://x");
    assert_eq!(validation(validate_url("ftp://x")), "webhook url must be http or https");
    let ev = validate_events(vec![" file.uploaded ".into(), "file.uploaded".into(), "file.deleted".into()]).unwrap();
    assert_eq!(ev, vec!["file.uploaded".to_string(), "file.deleted".to_string()]);
    assert_eq!(validation(validate_events(vec![])), "at least one webhook event is required");
    assert_eq!(
        validation(validate_events(vec!["file.uploaded".into(), "nope".into()])),
        "unsupported webhook event: nope"
    );
    assert_eq!(validate_secret("  0123456789abcdef  ").unwrap(), "0123456789abcdef");
    assert_eq!(validation(validate_secret("short")), "webhook secret must be at least 16 characters");
    let events = JsonValue::Array(vec![s("file.uploaded"), JsonValue::Null, s("file.failed")]);
    assert_eq!(event_list(&events), vec!["file.uploaded".to_string(), "file.failed".to_string()]);
    assert!(event_list(&JsonValue::Null).is_empty());
    assert!(subscribes_to(&events, "file.failed"));
    assert!(!subscribes_to(&events, "file.deleted"));
}

#[test]
fn webhook_create_and_update() {
    let req = CreateRequest {
        project_id: "p".into(),
        url: " https://h ".into(),
        events: vec!["file.deleted".into()],
        secret: None,
        is_active: None,
    };
    let w = new_webhook(req, "wh_1".into()).unwrap();
    assert_eq!(w.url, "https://h");
    assert!(w.is_active);
    assert_eq!(w.secret.len(), 48);
    let bad = CreateRequest {
        project_id: "p".into(),
        url: "nope".into(),
        events: vec!["zzz".into()],
        secret: Some("s".into()),
        is_active: Some(false),
    };
    assert_eq!(validation(new_webhook(bad, "x".into())), "webhook url must be http or https");
    let rec = WebhookRecord {
        id: "wh".into(),
        project_id: "p".into(),
        url: "https://a".into(),
        secret: "0123456789abcdef".into(),
        events: vec!["file.uploaded".into()],
        is_active: true,
    };
    let upd = WebhookUpdate { url: None, events: None, secret: Some("tiny".into()), is_active: Some(false) };
    assert_eq!(validation(apply_webhook_update(rec, upd)), "webhook secret must be at least 16 characters");
    let rec = WebhookRecord {
        id: "wh".into(),
        project_id: "p".into(),
        url: "https://a".into(),
        secret: "0123456789abcdef".into(),
        events: vec!["file.uploaded".into()],
        is_active: true,
    };
    let upd = WebhookUpdate { url: Some("http://b".into()), events: None, secret: None, is_active: Some(false) };
    let w = apply_webhook_update(rec, upd).unwrap();
    assert_eq!(w.url, "http://b");
    assert!(!w.is_active);
    assert_eq!(w.events, vec!["file.uploaded".to_string()]);
}

#[test]
fn urls_and_paths_join_with_one_slash() {
    assert_eq!(join_url("https://cdn/", "/a/b.png"), "https://cdn/a/b.png");
    assert_eq!(join_url("https://cdn", "a"), "https://cdn/a");
    assert_eq!(join_path("/srv//", "//x"), "/srv/x");
    let local = LocalStorageAdapter::new("./data".into(), "https://cdn/files/".into());
    assert_eq!(local.public_url("/img/a.png"), "https://cdn/files/img/a.png");
}

#[test]
fn local_paths_must_be_plain() {
    assert!(check_relative_path("a/b.png").is_ok());
    assert!(check_relative_path("/etc/passwd").is_err());
    assert!(check_relative_path("../x").is_err());
    assert!(check_relative_path("a/../x").is_err());
    assert!(check_relative_path("a/..").is_err());
    assert!(check_relative_path(".").is_err());
    assert_eq!(parent_of("/a/b/c.txt"), "/a/b");
    assert_eq!(ftp_dir_chain("base//x/y"), vec!["/base".to_string(), "/base/x".to_string(), "/base/x/y".to_string()]);
    assert!(ftp_missing_file("550 No such file"));
    assert!(!ftp_missing_file("421 timeout"));
    assert!(sftp_missing_file("No Such File"));
    assert!(sftp_missing_file("path not found"));
}

#[test]
fn storage_records_keep_secrets_encrypted() {
    let key = "k";
    let input = StorageInput::Ftp {
        host: "ftp.example.com".into(),
        port: None,
        username: "u".into(),
        password: "pw".into(),
        base_path: "/".into(),
        public_base_url: "https://cdn".into(),
    };
    let rec = build_storage(&input, "p", "stc_1", key).unwrap();
    assert_eq!(rec.kind, "ftp");
    assert_eq!(rec.port, Some(21));
    let enc = rec.encrypted_password.clone().unwrap();
    assert_ne!(enc, "pw");
    assert_eq!(decrypt(&enc, key).unwrap(), "pw");
    match build_adapter(&rec, key).unwrap() {
        StorageBackend::Ftp(a) => {
            assert_eq!(a.config().password, "pw");
            assert_eq!(a.config().port, 21);
        }
        _ => panic!("expected ftp"),
    }
    let sftp = StorageInput::Sftp {
        host: "h".into(),
        port: Some(2222),
        username: "u".into(),
        password: None,
        private_key: None,
        base_path: "/".into(),
        public_base_url: "https://cdn".into(),
    };
    assert_eq!(validation(build_storage(&sftp, "p", "s", key)), "sftp requires password or private_key");
    let view = connection_view(rec, "c".into(), "u".into());
    assert!(view.has_password);
    assert!(!view.has_private_key);
}

#[test]
fn storage_updates() {
    let key = "k";
    let rec = StorageRecord {
        id: "s".into(),
        project_id: "p".into(),
        kind: "sftp".into(),
        host: Some("h".into()),
        port: Some(22),
        username: Some("u".into()),
        encrypted_password: Some("old".into()),
        encrypted_private_key: None,
        base_path: "/".into(),
        public_base_url: "https://cdn".into(),
    };
    let req = UpdateRequest {
        host: None,
        port: Some(2200),
        username: None,
        password: Some(String::new()),
        private_key: Some("KEY".into()),
        base_path: None,
        public_base_url: None,
    };
    let n = apply_update(rec, req, key).unwrap();
    assert_eq!(n.port, Some(2200));
    assert_eq!(n.encrypted_password, None);
    assert_eq!(decrypt(&n.encrypted_private_key.unwrap(), key).unwrap(), "KEY");
    assert_eq!(n.host.as_deref(), Some("h"));
}

#[test]
fn unknown_storage_types_are_refused() {
    let rec = StorageRecord {
        id: "s".into(),
        project_id: "p".into(),
        kind: "s3".into(),
        host: None,
        port: None,
        username: None,
        encrypted_password: None,
        encrypted_private_key: None,
        base_path: "/".into(),
        public_base_url: "u".into(),
    };
    assert_eq!(validation(build_adapter(&rec, "k").map(|_| ())), "unknown storage type: s3");
}

#[test]
fn connection_test_reports() {
    assert!(matches!(test_report(Ok(())), JsonValue::Object(f) if f.len() == 1 && matches!(f[0].1, JsonValue::Bool(true))));
    match test_report(Err("refused".into())) {
        JsonValue::Object(f) => {
            assert!(matches!(f[0].1, JsonValue::Bool(false)));
            assert!(matches!(&f[1].1, JsonValue::Str(m) if m == "refused"));
        }
        other => panic!("{:?}", other),
    }
}

#[test]
fn preset_connections() {
    assert!(check_preset_connection(Some("p"), "p").is_ok());
    assert_eq!(validation(check_preset_connection(Some("q"), "p")), "storage connection belongs to a different project");
    assert_eq!(validation(check_preset_connection(None, "p")), "storage connection not found");
}

fn file(name: &str, saved: &str, path: &str) -> FileView {
    FileView {
        id: "f".into(),
        project_id: "p".into(),
        storage_connection_id: "s".into(),
        original_name: name.into(),
        saved_name: saved.into(),
        mime_type: "image/png".into(),
        extension: "png".into(),
        size: 1,
        hash: "h".into(),
        folder: "d".into(),
        path: path.into(),
        url: "u".into(),
        status: "uploaded".into(),
        duplicate_of_file_id: None,
        metadata: JsonValue::Null,
        created_at: "c".into(),
        updated_at: "u".into(),
    }
}

#[test]
fn file_search() {
    let rows = vec![file("Holiday.PNG", "a.png", "d/a.png"), file("x.png", "BEACH.png", "d/b.png"), file("y", "z", "photos/q")];
    let found = filter_files(rows, Some("  holiday "));
    assert_eq!(found.len(), 1);
    assert_eq!(found[0].original_name, "Holiday.PNG");
    let rows = vec![file("Holiday.PNG", "a.png", "d/a.png"), file("x.png", "BEACH.png", "d/b.png"), file("y", "z", "photos/q")];
    assert_eq!(filter_files(rows, Some("beach")).len(), 1);
    let rows = vec![file("a", "b", "c"), file("d", "e", "f")];
    assert_eq!(filter_files(rows, Some("   ")).len(), 2);
    let rows = vec![file("a", "b", "c"), file("d", "e", "f")];
    assert_eq!(filter_files(rows, None).len(), 2);
    assert_eq!(search_term(Some(" AbC ")).as_deref(), Some("abc"));
    assert_eq!(mime_filter(Some("")), None);
    assert_eq!(mime_filter(Some("image/png")).as_deref(), Some("image/png"));
}

#[test]
fn date_filters() {
    assert_eq!(parse_date_filter(None).unwrap(), None);
    assert_eq!(parse_date_filter(Some("  ")).unwrap(), None);
    assert_eq!(parse_date_filter(Some(" 2024-01-01T00:00:00Z ")).unwrap(), Some((1_704_067_200, 0)));
    assert_eq!(parse_date_filter(Some("2024-01-01T02:00:00.5+02:00")).unwrap(), Some((1_704_067_200, 500_000_000)));
    assert_eq!(validation(parse_date_filter(Some("yesterday"))), "date filters must be RFC3339 timestamps");
}

#[test]
fn streamed_files_keep_size_and_leading_bytes() {
    let mut st = StreamState::new();
    st.absorb(b"0123456789", 100).unwrap();
    st.absorb(b"abcdefghij", 100).unwrap();
    st.absorb(b"", 100).unwrap();
    let (size, magic, hash) = st.finish();
    assert_eq!(size, 20);
    assert_eq!(magic, b"0123456789abcdef".to_vec());
    assert_eq!(hash, filebase::digest::hex_digest(b"0123456789abcdefghij"));
    let mut st = StreamState::new();
    st.absorb(b"12345", 8).unwrap();
    assert_eq!(validation(st.absorb(b"6789", 8)), "file exceeds server max upload size");
    let (size, _, hash) = st.finish();
    assert_eq!(size, 5);
    assert_eq!(hash, "5994471abb01112afcc18159f6cc74b4f511b99806da59b3caf5a9c173cacfc5");
    let (_, _, empty) = StreamState::new().finish();
    assert_eq!(empty, "e3b0c44298fc1c149afbf4c8996fb92427ae41e4649b934ca495991b7852b855");
}

#[test]
fn multipart_forms() {
    let mut f = UploadForm::new();
    f.text_field("preset", "avatars".into());
    f.text_field("other", "x".into());
    f.file_field(None, Some("image/png")).unwrap();
    assert_eq!(f.filename, "upload.bin");
    assert_eq!(validation(f.file_field(Some("b.png"), None)), "multipart request must contain one file field");
    assert_eq!(f.preset.as_deref(), Some("avatars"));
    assert!(f.preset_id.is_none());
    assert!(f.complete(3).is_ok());
    assert_eq!(validation(f.complete(0)), "multipart file field is required");
    assert_eq!(validation(UploadForm::new().complete(5)), "multipart file field is required");
}

#[test]
fn a_failing_job_runs_max_attempts_times() {
    for max in [0u32, 1, 3, 5] {
        let mut current = job(0, max);
        let mut runs = 0;
        loop {
            runs += 1;
            match after_run(&current, false) {
                QueueAction::Retry => current = retried(ReservedJob { raw: "raw".into(), job: current }, "t".into()),
                QueueAction::Fail => break,
                QueueAction::Complete => unreachable!(),
            }
        }
        assert_eq!(runs, std::cmp::max(max, 1));
    }
}

#[test]
fn delivery_results() {
    assert!(filebase::worker::delivery_result(filebase::worker::response_outcome(204, "204 No Content")).is_ok());
    assert_eq!(
        filebase::worker::delivery_result(filebase::worker::response_outcome(500, "500 Internal Server Error")),
        Err("webhook delivery failed with status 500 Internal Server Error".to_string())
    );
    assert_eq!(filebase::worker::delivery_result(filebase::worker::transport_outcome("refused".into())), Err("refused".to_string()));
}
