use vstd::prelude::*;
use crate::digest::hex_sha256;
use crate::error::ApiError;
use crate::imaging::{ImageProcessingError, OriginalImage, ProcessedImage, ThumbnailImage};
use crate::json::{field_views, lemma_field_views, member, object, string_json, JsonValue, JsonView};
use crate::names::{clean_folder, is_invalid_upload_path};
use crate::uploads::{
    check_processed_size, companion_location, companion_path, duplicate_action, generate_saved_name,
    saved_name_parts_ok, spec_saved_name, upload_hash, AcceptedUpload, Companion, DuplicateAction,
};

verus! {

/// An accepted upload after its preset's image processing: the bytes to store with their
/// type, size and content hash, what processing recorded, and the companion files to store
/// beside it.
pub struct PreparedUpload {
    pub original_name: String,
    pub mime_type: String,
    pub extension: String,
    pub bytes: Vec<u8>,
    pub size: i64,
    pub hash: String,
    pub transformations: JsonValue,
    pub original: Option<OriginalImage>,
    pub thumbnail: Option<ThumbnailImage>,
}

/// Why bytes of length `len` may not be stored under the preset's and the server's limits.
pub open spec fn processed_size_fault(len: nat, preset_max: i64, server_max: u64) -> Option<Seq<char>> {
    if len > i64::MAX {
        Some("processed file is too large"@)
    } else if len > preset_max {
        Some("processed file exceeds preset max_file_size"@)
    } else if len > server_max {
        Some("processed file exceeds server max upload size"@)
    } else {
        None
    }
}

/// Folds the outcome of image processing into an accepted upload. A processing error refuses
/// the upload with its message. Without processing the file is stored as received, with no
/// transformations and the hash of what was received; with processing the processed bytes,
/// type and metadata are stored, with the original and the thumbnail beside them and the hash
/// of the processed bytes. Either way the bytes must still fit both size limits.
pub fn prepare_upload(
    accepted: AcceptedUpload,
    input_hash: &str,
    input_bytes: Vec<u8>,
    processed: Result<Option<ProcessedImage>, ImageProcessingError>,
    preset_max: i64,
    server_max: u64,
) -> (r: Result<PreparedUpload, ApiError>)
    ensures
        processed matches Err(e) ==> (r matches Err(x) && x.is_validation(e.text())),
        processed matches Ok(o) ==> {
            let len: nat = match o {
                Some(img) => img.bytes@.len(),
                None => input_bytes@.len(),
            };
            &&& processed_size_fault(len, preset_max, server_max) matches Some(m) ==> (r matches Err(
                x,
            ) && x.is_validation(m))
            &&& processed_size_fault(len, preset_max, server_max) is None ==> (r matches Ok(p) && {
                &&& p.original_name == accepted.original_name
                &&& p.size == len
                &&& match o {
                    None => {
                        &&& p.bytes == input_bytes
                        &&& p.mime_type == accepted.mime_type
                        &&& p.extension == accepted.extension
                        &&& p.transformations@ == JsonView::Object(Seq::empty())
                        &&& p.original is None
                        &&& p.thumbnail is None
                        &&& p.hash@ == input_hash@
                    },
                    Some(img) => {
                        &&& p.bytes == img.bytes
                        &&& p.mime_type == img.mime_type
                        &&& p.extension == img.extension
                        &&& p.transformations == img.metadata
                        &&& p.original == img.original
                        &&& p.thumbnail == img.thumbnail
                        &&& p.hash@ == hex_sha256(img.bytes@)
                    },
                }
            })
        },
{
    let processed = match processed {
        Err(e) => {
            let m = e.message();
            return Err(ApiError::Validation(m));
        },
        Ok(o) => o,
    };
    let AcceptedUpload { size: _, original_name, extension, mime_type } = accepted;
    let (bytes, mime_type, extension, transformations, original, thumbnail, was_processed) =
        match processed {
        None => {
            let empty: Vec<(String, JsonValue)> = Vec::new();
            proof {
                assert(field_views(empty@) =~= Seq::<(Seq<char>, JsonView)>::empty());
            }
            (input_bytes, mime_type, extension, object(empty), None, None, false)
        },
        Some(img) => {
            let ProcessedImage { bytes, mime_type, extension, metadata, original, thumbnail } = img;
            (bytes, mime_type, extension, metadata, original, thumbnail, true)
        },
    };
    let size = check_processed_size(bytes.len(), preset_max, server_max)?;
    let hash = upload_hash(was_processed, input_hash, &bytes);
    Ok(PreparedUpload {
        original_name,
        mime_type,
        extension,
        bytes,
        size,
        hash,
        transformations,
        original,
        thumbnail,
    })
}

/// An entry of a project's upload log.
pub struct UploadLog {
    pub file_id: Option<String>,
    pub action: String,
    pub status: String,
    pub message: Option<String>,
    pub metadata: JsonValue,
}

/// The log entry of a duplicate found for `existing`, with its status and message.
pub open spec fn duplicate_log(log: UploadLog, existing: Seq<char>, status: Seq<char>, message: Seq<char>) -> bool {
    &&& log.file_id matches Some(id) && id@ == existing
    &&& log.action@ == "file.duplicate_detected"@
    &&& log.status@ == status
    &&& log.message matches Some(m) && m@ == message
    &&& log.metadata@ == JsonView::Object(seq![("duplicateOfFileId"@, JsonView::Str(existing))])
}

fn duplicate_entry(existing: &str, status: &str, message: &str) -> (r: UploadLog)
    ensures
        duplicate_log(r, existing@, status@, message@),
{
    let fields = vec![member("duplicateOfFileId", string_json(existing))];
    proof {
        lemma_field_views(fields@);
        assert(field_views(fields@) =~= seq![("duplicateOfFileId"@, JsonView::Str(existing@))]);
    }
    UploadLog {
        file_id: Some(existing.to_owned()),
        action: "file.duplicate_detected".to_owned(),
        status: status.to_owned(),
        message: Some(message.to_owned()),
        metadata: object(fields),
    }
}

/// Where an upload and its companion files go in storage.
pub struct UploadPlacement {
    pub saved_name: String,
    pub path: String,
    pub original_path: Option<String>,
    pub thumbnail_path: Option<String>,
}

/// What happens next to a prepared upload.
pub enum UploadStep {
    /// A file with the same content is returned instead; the entry is logged.
    ReturnExisting { file_id: String, log: UploadLog },
    /// The upload is refused as a duplicate; the entry is logged and the error returned.
    Rejected { log: UploadLog, error: ApiError },
    /// The upload and its companions are stored at these places.
    Store(UploadPlacement),
}

/// The path of a companion file of the given extension, if one is stored, or `Err` when the
/// path is invalid.
pub open spec fn companion_place(
    folder: Seq<char>,
    saved_name: Seq<char>,
    kind: Companion,
    extension: Option<Seq<char>>,
) -> Result<Option<Seq<char>>, ()> {
    match extension {
        None => Ok(None),
        Some(ext) => {
            let (f, n) = companion_location(folder, saved_name, kind, ext);
            if is_invalid_upload_path(f, n) {
                Err(())
            } else {
                Ok(Some(clean_folder(f) + "/"@ + n))
            }
        },
    }
}

/// The paths of an upload stored under `saved_name` in `folder` and of its companions, or
/// `Err` when one of them is invalid.
pub open spec fn placement(
    folder: Seq<char>,
    saved_name: Seq<char>,
    original_ext: Option<Seq<char>>,
    thumbnail_ext: Option<Seq<char>>,
) -> Result<(Seq<char>, Option<Seq<char>>, Option<Seq<char>>), ()> {
    if is_invalid_upload_path(folder, saved_name) {
        Err(())
    } else {
        match companion_place(folder, saved_name, Companion::Original, original_ext) {
            Err(_) => Err(()),
            Ok(o) => match companion_place(folder, saved_name, Companion::Thumbnail, thumbnail_ext) {
                Err(_) => Err(()),
                Ok(t) => Ok((clean_folder(folder) + "/"@ + saved_name, o, t)),
            },
        }
    }
}

/// The extension of a kept original, if there is one.
pub open spec fn original_ext(o: Option<OriginalImage>) -> Option<Seq<char>> {
    match o {
        Some(o) => Some(o.extension@),
        None => None,
    }
}

/// The extension of a thumbnail, if there is one.
pub open spec fn thumbnail_ext(t: Option<ThumbnailImage>) -> Option<Seq<char>> {
    match t {
        Some(t) => Some(t.extension@),
        None => None,
    }
}

/// A stored name the preset's filename strategy may give a prepared upload.
pub open spec fn is_saved_name_for(strategy: Seq<char>, p: PreparedUpload, name: Seq<char>) -> bool {
    exists|uuid: Seq<char>, millis: int, short: Seq<char>, long: Seq<char>|
        saved_name_parts_ok(uuid, short, long) && name == spec_saved_name(
            strategy,
            p.original_name@,
            p.extension@,
            p.hash@,
            uuid,
            millis,
            short,
            long,
        )
}

fn place_companion(folder: &str, saved_name: &str, kind: Companion, extension: Option<&str>) -> (r: Result<
    Option<String>,
    ApiError,
>)
    ensures
        ({
            let ext = match extension { Some(e) => Some(e@), None => None };
            &&& r matches Ok(o) ==> companion_place(folder@, saved_name@, kind, ext) == Ok::<
                Option<Seq<char>>,
                (),
            >(match o { Some(s) => Some(s@), None => None })
            &&& r matches Err(e) ==> companion_place(folder@, saved_name@, kind, ext) is Err
                && e.is_validation("upload path is invalid"@)
        }),
{
    match extension {
        None => Ok(None),
        Some(ext) => {
            let p = companion_path(folder, saved_name, kind, ext)?;
            Ok(Some(p))
        },
    }
}

/// Decides what becomes of a prepared upload, given the oldest stored file of the project
/// with the same content hash, if any. With such a file, `return_existing` returns it and
/// `reject_duplicate` refuses the upload, each with its log entry; any other strategy, or no
/// such file, stores the upload under a name the filename strategy gives in the preset's
/// folder, with its kept original and its thumbnail in the `originals` and `thumbnails`
/// subfolders. An invalid path refuses the upload before anything is stored.
pub fn plan_storage(
    prepared: &PreparedUpload,
    existing: Option<&str>,
    duplicate_strategy: &str,
    folder: &str,
    filename_strategy: &str,
) -> (r: Result<UploadStep, ApiError>)
    ensures
        (existing matches Some(id) && duplicate_strategy@ == "return_existing"@) ==> (r matches Ok(
            UploadStep::ReturnExisting { file_id, log },
        ) && file_id@ == existing->Some_0@ && duplicate_log(
            log,
            existing->Some_0@,
            "success"@,
            "returned existing file"@,
        )),
        (existing matches Some(id) && duplicate_strategy@ == "reject_duplicate"@) ==> (r matches Ok(
            UploadStep::Rejected { log, error },
        ) && error.is_conflict("duplicate file rejected by preset"@) && duplicate_log(
            log,
            existing->Some_0@,
            "rejected"@,
            "duplicate file rejected"@,
        )),
        (existing is None || (duplicate_strategy@ != "return_existing"@ && duplicate_strategy@
            != "reject_duplicate"@)) ==> exists|name: Seq<char>|
            #![trigger is_saved_name_for(filename_strategy@, *prepared, name)]
            is_saved_name_for(filename_strategy@, *prepared, name) && {
                let plan = placement(
                    folder@,
                    name,
                    original_ext(prepared.original),
                    thumbnail_ext(prepared.thumbnail),
                );
                &&& plan is Err ==> (r matches Err(e) && e.is_validation("upload path is invalid"@))
                &&& plan matches Ok(paths) ==> (r matches Ok(UploadStep::Store(p)) && p.saved_name@
                    == name && p.path@ == paths.0 && (match p.original_path {
                    Some(s) => Some(s@),
                    None => None,
                }) == paths.1 && (match p.thumbnail_path {
                    Some(s) => Some(s@),
                    None => None,
                }) == paths.2)
            },
{
    if let Some(id) = existing {
        match duplicate_action(duplicate_strategy) {
            DuplicateAction::ReturnExisting => {
                let log = duplicate_entry(id, "success", "returned existing file");
                return Ok(UploadStep::ReturnExisting { file_id: id.to_owned(), log });
            },
            DuplicateAction::Reject => {
                let log = duplicate_entry(id, "rejected", "duplicate file rejected");
                let error = ApiError::conflict("duplicate file rejected by preset");
                return Ok(UploadStep::Rejected { log, error });
            },
            DuplicateAction::UploadNewCopy => {},
        }
    }
    let saved_name = generate_saved_name(
        filename_strategy,
        prepared.original_name.as_str(),
        prepared.extension.as_str(),
        prepared.hash.as_str(),
    );
    proof {
        assert(is_saved_name_for(filename_strategy@, *prepared, saved_name@));
    }
    let r = place(prepared, folder, saved_name);
    r
}

fn place(prepared: &PreparedUpload, folder: &str, saved_name: String) -> (r: Result<UploadStep, ApiError>)
    ensures
        ({
            let plan = placement(
                folder@,
                saved_name@,
                original_ext(prepared.original),
                thumbnail_ext(prepared.thumbnail),
            );
            &&& plan is Err ==> (r matches Err(e) && e.is_validation("upload path is invalid"@))
            &&& plan matches Ok(paths) ==> (r matches Ok(UploadStep::Store(p)) && p.saved_name@
                == saved_name@ && p.path@ == paths.0 && (match p.original_path {
                Some(s) => Some(s@),
                None => None,
            }) == paths.1 && (match p.thumbnail_path {
                Some(s) => Some(s@),
                None => None,
            }) == paths.2)
        }),
{
    let path = crate::names::join_relative(folder, saved_name.as_str())?;
    let original_extension = match &prepared.original {
        Some(o) => Some(o.extension.as_str()),
        None => None,
    };
    let original_path = place_companion(folder, saved_name.as_str(), Companion::Original, original_extension)?;
    let thumbnail_extension = match &prepared.thumbnail {
        Some(t) => Some(t.extension.as_str()),
        None => None,
    };
    let thumbnail_path = place_companion(
        folder,
        saved_name.as_str(),
        Companion::Thumbnail,
        thumbnail_extension,
    )?;
    Ok(UploadStep::Store(UploadPlacement { saved_name, path, original_path, thumbnail_path }))
}

/// The log entry of a stored upload: its path and URL.
pub fn uploaded_log(file_id: &str, path: &str, url: &str) -> (r: UploadLog)
    ensures
        r.file_id matches Some(id) && id@ == file_id@,
        r.action@ == "file.uploaded"@,
        r.status@ == "success"@,
        r.message is None,
        r.metadata@ == JsonView::Object(seq![("path"@, JsonView::Str(path@)), ("url"@, JsonView::Str(url@))]),
{
    let fields = vec![member("path", string_json(path)), member("url", string_json(url))];
    proof {
        lemma_field_views(fields@);
        assert(field_views(fields@) =~= seq![("path"@, JsonView::Str(path@)), ("url"@, JsonView::Str(url@))]);
    }
    UploadLog {
        file_id: Some(file_id.to_owned()),
        action: "file.uploaded".to_owned(),
        status: "success".to_owned(),
        message: None,
        metadata: object(fields),
    }
}

} // verus!
