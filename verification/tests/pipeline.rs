use filebase::error::ApiError;
use filebase::imaging::{ImageProcessingError, OriginalImage, ProcessedImage, ThumbnailImage};
use filebase::json::JsonValue;
use filebase::pipeline::{plan_storage, prepare_upload, uploaded_log, PreparedUpload, UploadStep};
use filebase::uploads::AcceptedUpload;

fn accepted() -> AcceptedUpload {
    AcceptedUpload {
        size: 4,
        original_name: "My Photo.png".into(),
        extension: "png".into(),
        mime_type: "image/png".into(),
    }
}

fn prepared(original: bool, thumbnail: bool) -> PreparedUpload {
    PreparedUpload {
        original_name: "My Photo.png".into(),
        mime_type: "image/webp".into(),
        extension: "webp".into(),
        bytes: vec![1, 2, 3],
        size: 3,
        hash: "abc123".into(),
        transformations: JsonValue::Object(vec![]),
        original: if original {
            Some(OriginalImage { bytes: vec![1], mime_type: "image/png".into(), extension: "png".into(), size: 1 })
        } else {
            None
        },
        thumbnail: if thumbnail {
            Some(ThumbnailImage {
                bytes: vec![2],
                mime_type: "image/jpeg".into(),
                extension: "jpg".into(),
                width: 8,
                height: 8,
                size: 1,
            })
        } else {
            None
        },
    }
}

fn validation(e: ApiError) -> String {
    match e {
        ApiError::Validation(m) => m,
        other => panic!("{:?}", other),
    }
}

#[test]
fn unprocessed_uploads_are_stored_as_received() {
    let p = prepare_upload(accepted(), "inputhash", vec![9, 9, 9, 9], Ok(None), 100, 100).unwrap();
    assert_eq!(p.bytes, vec![9, 9, 9, 9]);
    assert_eq!(p.size, 4);
    assert_eq!(p.hash, "inputhash");
    assert_eq!(p.mime_type, "image/png");
    assert_eq!(p.original_name, "My Photo.png");
    assert!(matches!(p.transformations, JsonValue::Object(ref f) if f.is_empty()));
    assert!(p.original.is_none() && p.thumbnail.is_none());
}

#[test]
fn processed_uploads_store_the_processed_bytes_with_their_hash() {
    let img = ProcessedImage {
        bytes: b"abc".to_vec(),
        mime_type: "image/webp".into(),
        extension: "webp".into(),
        metadata: JsonValue::Object(vec![("image".into(), JsonValue::Null)]),
        original: None,
        thumbnail: None,
    };
    let p = prepare_upload(accepted(), "inputhash", vec![9; 4], Ok(Some(img)), 100, 100).unwrap();
    assert_eq!(p.bytes, b"abc".to_vec());
    assert_eq!(p.extension, "webp");
    assert_eq!(p.hash, "ba7816bf8f01cfea414140de5dae2223b00361a396177a9cb410ff61f20015ad");
}

#[test]
fn refusals_come_with_their_messages() {
    let e = prepare_upload(accepted(), "h", vec![1], Err(ImageProcessingError::Decode("bad".into())), 100, 100);
    assert_eq!(validation(e.err().unwrap()), "image decode failed: bad");
    let e = prepare_upload(accepted(), "h", vec![1; 10], Ok(None), 5, 100);
    assert_eq!(validation(e.err().unwrap()), "processed file exceeds preset max_file_size");
    let e = prepare_upload(accepted(), "h", vec![1; 10], Ok(None), 100, 5);
    assert_eq!(validation(e.err().unwrap()), "processed file exceeds server max upload size");
}

#[test]
fn duplicates_follow_the_preset_strategy() {
    let p = prepared(false, false);
    match plan_storage(&p, Some("file_1"), "return_existing", "avatars", "hash").unwrap() {
        UploadStep::ReturnExisting { file_id, log } => {
            assert_eq!(file_id, "file_1");
            assert_eq!(log.action, "file.duplicate_detected");
            assert_eq!(log.status, "success");
            assert_eq!(log.message.as_deref(), Some("returned existing file"));
            assert_eq!(log.file_id.as_deref(), Some("file_1"));
        }
        _ => panic!("expected the existing file"),
    }
    match plan_storage(&p, Some("file_1"), "reject_duplicate", "avatars", "hash").unwrap() {
        UploadStep::Rejected { log, error } => {
            assert_eq!(log.status, "rejected");
            assert!(matches!(error, ApiError::Conflict(ref m) if m == "duplicate file rejected by preset"));
        }
        _ => panic!("expected a refusal"),
    }
    assert!(matches!(
        plan_storage(&p, Some("file_1"), "allow_duplicate", "avatars", "hash").unwrap(),
        UploadStep::Store(_)
    ));
}

#[test]
fn placement_of_an_upload_and_its_companions() {
    let p = prepared(true, true);
    match plan_storage(&p, None, "return_existing", "avatars", "hash").unwrap() {
        UploadStep::Store(place) => {
            assert_eq!(place.saved_name, "abc123.webp");
            assert_eq!(place.path, "avatars/abc123.webp");
            assert_eq!(place.original_path.as_deref(), Some("avatars/originals/abc123-original.png"));
            assert_eq!(place.thumbnail_path.as_deref(), Some("avatars/thumbnails/abc123-thumb.jpg"));
        }
        _ => panic!("expected a placement"),
    }
    let e = plan_storage(&p, None, "return_existing", "../secret", "hash").err().unwrap();
    assert_eq!(validation(e), "upload path is invalid");
}

#[test]
fn the_stored_upload_is_logged_with_its_place() {
    let log = uploaded_log("file_9", "a/b.png", "https://cdn/a/b.png");
    assert_eq!(log.action, "file.uploaded");
    assert_eq!(log.status, "success");
    assert!(log.message.is_none());
    match log.metadata {
        JsonValue::Object(f) => {
            assert_eq!(f[0].0, "path");
            assert_eq!(f[1].0, "url");
        }
        _ => panic!(),
    }
}
