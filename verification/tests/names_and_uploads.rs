use filebase::error::ApiError;
use filebase::json::JsonValue;
use filebase::names::{extension_from_name, join_relative, safe_original_name, slugify, stem_of};
use filebase::uploads::{
    check_processed_size, check_upload, check_upload_connection, check_upload_session,
    companion_path, duplicate_action, ensure_same_project, extract_bearer_or_key,
    generate_saved_name, magic_mime, preset_selector, resolve_project, session_lifetime_seconds,
    string_array, upload_hash, upload_metadata, upload_token, upload_url, validate_extension,
    validate_mime, Companion, DuplicateAction, PresetRules, PresetSelector, SessionRules,
    StoredCompanion,
};

fn strs(items: &[&str]) -> JsonValue {
    JsonValue::Array(items.iter().map(|s| JsonValue::Str(s.to_string())).collect())
}

fn validation<T>(r: Result<T, ApiError>) -> String {
    match r {
        Err(ApiError::Validation(m)) => m,
        Err(e) => panic!("expected a validation error, got {:?}", e),
        Ok(_) => panic!("expected a validation error, got a success"),
    }
}

#[test]
fn safe_name_keeps_last_segment_trimmed() {
    assert_eq!(safe_original_name("../etc/passwd").unwrap(), "passwd");
    assert_eq!(safe_original_name("C:\\Users\\me\\ photo.png ").unwrap(), "photo.png");
    assert_eq!(safe_original_name("plain.txt").unwrap(), "plain.txt");
}

#[test]
fn safe_name_refuses_dots_and_empty() {
    assert_eq!(validation(safe_original_name("a/..")), "filename is invalid");
    assert_eq!(validation(safe_original_name("a/.")), "filename is invalid");
    assert_eq!(validation(safe_original_name("dir/")), "filename is invalid");
    assert_eq!(validation(safe_original_name("   ")), "filename is invalid");
}

#[test]
fn extension_is_lowercased_and_simple() {
    assert_eq!(extension_from_name("Photo.JPG").unwrap(), "jpg");
    assert_eq!(extension_from_name("archive.tar.gz").unwrap(), "gz");
    assert_eq!(validation(extension_from_name("noext")), "file must have a simple extension");
    assert_eq!(validation(extension_from_name("bad.ex-t")), "file must have a simple extension");
    assert_eq!(validation(extension_from_name("trailing.")), "file must have a simple extension");
}

#[test]
fn stem_drops_the_last_extension() {
    assert_eq!(stem_of("archive.tar.gz"), "archive.tar");
    assert_eq!(stem_of("noext"), "noext");
}

#[test]
fn file_slugs() {
    assert_eq!(slugify("Hello World!"), "hello-world");
    assert_eq!(slugify("--Já  Vu--"), "j-vu");
    assert_eq!(slugify("***"), "file");
    assert_eq!(slugify("ÀB"), "b");
}

#[test]
fn join_relative_builds_clean_paths() {
    assert_eq!(join_relative(" /uploads/images/ ", "a.png").unwrap(), "uploads/images/a.png");
    assert_eq!(validation(join_relative("a/../b", "x.png")), "upload path is invalid");
    assert_eq!(validation(join_relative("///", "x.png")), "upload path is invalid");
    assert_eq!(validation(join_relative("ok", "x/y.png")), "upload path is invalid");
    assert_eq!(validation(join_relative("ok", "x\\y.png")), "upload path is invalid");
}

#[test]
fn magic_numbers() {
    assert_eq!(magic_mime(&[0x89, b'P', b'N', b'G', 0x0d]), Some("image/png"));
    assert_eq!(magic_mime(&[0xff, 0xd8, 0xff, 0xe0]), Some("image/jpeg"));
    assert_eq!(magic_mime(b"GIF89a..."), Some("image/gif"));
    assert_eq!(magic_mime(b"GIF87a"), Some("image/gif"));
    assert_eq!(magic_mime(b"%PDF-1.7"), Some("application/pdf"));
    assert_eq!(magic_mime(b"RIFF\0\0\0\0WEBPVP8 "), Some("image/webp"));
    assert_eq!(magic_mime(b"RIFF\0\0\0\0WEB"), None);
    assert_eq!(magic_mime(b"hello"), None);
    assert_eq!(magic_mime(&[]), None);
}

#[test]
fn mime_checks() {
    let png = [0x89, b'P', b'N', b'G'];
    assert_eq!(validate_mime(&strs(&[]), Some("IMAGE/PNG"), &png).unwrap(), "image/png");
    assert_eq!(validate_mime(&strs(&[]), None, &png).unwrap(), "image/png");
    assert_eq!(validate_mime(&strs(&[]), Some("Text/Plain"), b"hi").unwrap(), "text/plain");
    assert_eq!(
        validation(validate_mime(&strs(&[]), Some("image/jpeg"), &png)),
        "file content does not match MIME type"
    );
    assert_eq!(
        validation(validate_mime(&strs(&["image/jpeg"]), Some("image/png"), &png)),
        "MIME type is not allowed by preset"
    );
    assert_eq!(validate_mime(&strs(&["IMAGE/PNG"]), None, &png).unwrap(), "image/png");
    assert_eq!(validate_mime(&strs(&[]), None, b"x").unwrap(), "application/octet-stream");
    assert_eq!(validation(validate_mime(&JsonValue::Null, None, b"x")), "preset rules must be arrays");
}

#[test]
fn preset_lists_must_be_string_arrays() {
    assert_eq!(string_array(&strs(&["A", "b"])).unwrap(), vec!["a".to_string(), "b".to_string()]);
    assert!(string_array(&strs(&[])).unwrap().is_empty());
    assert_eq!(validation(string_array(&JsonValue::Null)), "preset rules must be arrays");
    let mixed = JsonValue::Array(vec![JsonValue::Str("a".into()), JsonValue::Bool(true)]);
    assert_eq!(validation(string_array(&mixed)), "preset rules must contain strings");
    assert_eq!(
        validation(string_array(&JsonValue::Str("a".into()))),
        "preset rules must be arrays"
    );
}

#[test]
fn extension_checks() {
    assert!(validate_extension(&strs(&[]), "png").is_ok());
    assert!(validate_extension(&strs(&["PNG", "jpg"]), "png").is_ok());
    assert!(validate_extension(&strs(&[".png"]), "png").is_ok());
    assert_eq!(
        validation(validate_extension(&strs(&["jpg"]), "png")),
        "file extension is not allowed by preset"
    );
}

#[test]
fn saved_names_by_strategy() {
    let hash = "abc123";
    assert_eq!(generate_saved_name("hash", "Photo.PNG", "png", hash), "abc123.png");
    let uuid = generate_saved_name("uuid", "a.png", "png", hash);
    assert_eq!(uuid.len(), 36);
    assert!(uuid.ends_with(".png"));
    let random = generate_saved_name("random", "a.png", "png", hash);
    assert_eq!(random.len(), 24);
    let suffix = generate_saved_name("original_suffix", "My Photo.png", "png", hash);
    assert!(suffix.starts_with("my-photo-"));
    assert_eq!(suffix.len(), "my-photo-".len() + 8 + 4);
    let other = generate_saved_name("something", "x.png", "png", hash);
    assert!(other.starts_with("x-"));
    let ts = generate_saved_name("timestamp_random", "x.png", "png", hash);
    let (millis, rest) = ts.split_once('-').unwrap();
    assert!(millis.parse::<i64>().unwrap() > 1_600_000_000_000);
    assert_eq!(rest.len(), 8 + 4);
}

fn preset(max: i64) -> PresetRules {
    PresetRules { max_file_size: max, allowed_mime_types: strs(&[]), allowed_extensions: strs(&[]) }
}

#[test]
fn upload_checks_in_order() {
    let png = [0x89, b'P', b'N', b'G'];
    let ok = check_upload(&preset(100), None, 1000, 10, "a/b/Pic.PNG", None, &png).unwrap();
    assert_eq!(ok.size, 10);
    assert_eq!(ok.original_name, "Pic.PNG");
    assert_eq!(ok.extension, "png");
    assert_eq!(ok.mime_type, "image/png");
    assert_eq!(validation(check_upload(&preset(100), None, 1000, 0, "a.png", None, &png)), "file is required");
    assert_eq!(
        validation(check_upload(&preset(5), None, 1000, 10, "a.png", None, &png)),
        "file exceeds preset max_file_size"
    );
    assert_eq!(
        validation(check_upload(&preset(100), None, 8, 10, "a.png", None, &png)),
        "file exceeds server max upload size"
    );
    assert_eq!(
        validation(check_upload(&preset(i64::MAX), None, u64::MAX, u64::MAX, "a.png", None, &png)),
        "file is too large"
    );
    assert_eq!(
        validation(check_upload(&preset(100), None, 1000, 10, "..", None, &png)),
        "filename is invalid"
    );
    let session = SessionRules { allowed_mime_types: strs(&["image/jpeg"]), max_file_size: 100 };
    assert_eq!(
        validation(check_upload(&preset(100), Some(&session), 1000, 10, "a.png", None, &png)),
        "MIME type is not allowed by preset"
    );
    let small = SessionRules { allowed_mime_types: strs(&[]), max_file_size: 5 };
    assert_eq!(
        validation(check_upload(&preset(100), Some(&small), 1000, 10, "a.png", None, &png)),
        "file exceeds upload session max_file_size"
    );
}

#[test]
fn processed_size_checks() {
    assert_eq!(check_processed_size(10, 10, 10).unwrap(), 10);
    assert_eq!(validation(check_processed_size(11, 10, 100)), "processed file exceeds preset max_file_size");
    assert_eq!(
        validation(check_processed_size(11, 100, 10)),
        "processed file exceeds server max upload size"
    );
}

#[test]
fn duplicate_strategies() {
    assert!(matches!(duplicate_action("return_existing"), DuplicateAction::ReturnExisting));
    assert!(matches!(duplicate_action("reject_duplicate"), DuplicateAction::Reject));
    assert!(matches!(duplicate_action("upload_new_copy"), DuplicateAction::UploadNewCopy));
    assert!(matches!(duplicate_action("anything"), DuplicateAction::UploadNewCopy));
}

#[test]
fn upload_hash_uses_processed_bytes_only_when_processed() {
    assert_eq!(upload_hash(false, "given", b"abc"), "given");
    assert_eq!(
        upload_hash(true, "given", b"abc"),
        "ba7816bf8f01cfea414140de5dae2223b00361a396177a9cb410ff61f20015ad"
    );
}

#[test]
fn companion_paths() {
    assert_eq!(
        companion_path("images", "photo.webp", Companion::Original, "png").unwrap(),
        "images/originals/photo-original.png"
    );
    assert_eq!(
        companion_path("/images/", "photo.webp", Companion::Thumbnail, "jpg").unwrap(),
        "images//thumbnails/photo-thumb.jpg"
    );
}

#[test]
fn session_lifetimes_are_clamped() {
    assert_eq!(session_lifetime_seconds(None), 900);
    assert_eq!(session_lifetime_seconds(Some(5)), 60);
    assert_eq!(session_lifetime_seconds(Some(100_000)), 3600);
    assert_eq!(session_lifetime_seconds(Some(120)), 120);
}

#[test]
fn session_urls_and_tokens() {
    assert_eq!(upload_url("https://api.example.com///", "session_1"), "https://api.example.com/uploads/session_1");
    let t = upload_token();
    assert!(t.starts_with("fb_upload_"));
    assert_eq!(t.len(), 58);
    assert!(t[10..].chars().all(|c| c.is_ascii_alphanumeric()));
}

#[test]
fn session_checks() {
    let stored = filebase::digest::hash_secret("tok");
    assert!(check_upload_session(&stored, "tok", false, 10, 5).is_ok());
    assert!(check_upload_session(&stored, "tok", false, 5, 5).is_ok());
    assert!(matches!(check_upload_session(&stored, "other", false, 10, 5), Err(ApiError::Unauthorized)));
    match check_upload_session(&stored, "tok", true, 10, 5) {
        Err(ApiError::Conflict(m)) => assert_eq!(m, "upload session has already been used"),
        other => panic!("{:?}", other),
    }
    assert!(matches!(check_upload_session(&stored, "tok", false, 4, 5), Err(ApiError::Unauthorized)));
}

#[test]
fn projects_of_api_keys() {
    assert_eq!(resolve_project(None, "p1").unwrap(), "p1");
    assert_eq!(resolve_project(Some("p1"), "p1").unwrap(), "p1");
    assert!(matches!(resolve_project(Some("p2"), "p1"), Err(ApiError::Forbidden)));
    assert!(ensure_same_project("a", "a").is_ok());
    assert!(matches!(ensure_same_project("a", "b"), Err(ApiError::Forbidden)));
}

#[test]
fn api_secret_from_headers() {
    assert_eq!(extract_bearer_or_key(Some("k1"), Some("Bearer k2")).unwrap(), "k1");
    assert_eq!(extract_bearer_or_key(None, Some("Bearer k2")).unwrap(), "k2");
    assert_eq!(extract_bearer_or_key(None, Some("Basic k2")), None);
    assert_eq!(extract_bearer_or_key(None, None), None);
}

#[test]
fn preset_selection() {
    assert!(matches!(preset_selector(Some("id".into()), Some("n".into())), Ok(PresetSelector::ById(i)) if i == "id"));
    assert!(matches!(preset_selector(None, Some("n".into())), Ok(PresetSelector::ByName(n)) if n == "n"));
    assert_eq!(validation(preset_selector(None, None)), "preset_id or preset is required");
}

#[test]
fn upload_connection_checks() {
    assert!(check_upload_connection(true, Some("p"), "p", false).is_ok());
    assert!(matches!(check_upload_connection(true, Some("q"), "p", true), Err(ApiError::Forbidden)));
    assert!(matches!(check_upload_connection(true, None, "p", true), Err(ApiError::NotFound)));
    assert!(check_upload_connection(false, None, "p", true).is_ok());
    assert_eq!(
        validation(check_upload_connection(false, None, "p", false)),
        "project has no storage connection"
    );
}

#[test]
fn upload_metadata_shape() {
    let original = StoredCompanion {
        path: "f/originals/a-original.png".into(),
        url: "https://cdn/f/originals/a-original.png".into(),
        mime_type: "image/png".into(),
        extension: "png".into(),
        size: 12,
        dimensions: None,
    };
    let thumb = StoredCompanion {
        path: "f/thumbnails/a-thumb.jpg".into(),
        url: "https://cdn/t".into(),
        mime_type: "image/jpeg".into(),
        extension: "jpg".into(),
        size: 7,
        dimensions: Some((32, 16)),
    };
    let meta = upload_metadata("preset_1", None, JsonValue::Object(vec![]), Some(original), Some(thumb));
    let fields = match meta {
        JsonValue::Object(f) => f,
        other => panic!("{:?}", other),
    };
    let names: Vec<&str> = fields.iter().map(|(k, _)| k.as_str()).collect();
    assert_eq!(names, vec!["presetId", "sessionId", "transformations", "original", "thumbnail"]);
    assert!(matches!(&fields[0].1, JsonValue::Str(s) if s == "preset_1"));
    assert!(matches!(&fields[1].1, JsonValue::Null));
    match &fields[4].1 {
        JsonValue::Object(t) => {
            let keys: Vec<&str> = t.iter().map(|(k, _)| k.as_str()).collect();
            assert_eq!(keys, vec!["path", "url", "mimeType", "extension", "width", "height", "size"]);
            assert!(matches!(&t[4].1, JsonValue::Number(n) if n == "32"));
            assert!(matches!(&t[6].1, JsonValue::Number(n) if n == "7"));
        }
        other => panic!("{:?}", other),
    }
    match &fields[3].1 {
        JsonValue::Object(o) => {
            assert_eq!(o.len(), 5);
            assert!(matches!(&o[4].1, JsonValue::Number(n) if n == "12"));
        }
        other => panic!("{:?}", other),
    }
    let with_session = upload_metadata("p", Some("session_9"), JsonValue::Null, None, None);
    match with_session {
        JsonValue::Object(f) => {
            assert!(matches!(&f[1].1, JsonValue::Str(s) if s == "session_9"));
            assert!(matches!(&f[3].1, JsonValue::Null));
        }
        other => panic!("{:?}", other),
    }
}
