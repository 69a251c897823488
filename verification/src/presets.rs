use vstd::prelude::*;
use crate::error::ApiError;
use crate::json::JsonValue;
use crate::text::str_eq;

verus! {

/// A request to change an upload preset: a storage connection to move it to.
pub struct UpdateRequest {
    pub storage_connection_id: Option<String>,
}

/// An upload preset as the API shows it.
pub struct PresetView {
    pub id: String,
    pub project_id: String,
    pub storage_connection_id: Option<String>,
    pub name: String,
    pub folder: String,
    pub allowed_mime_types: JsonValue,
    pub allowed_extensions: JsonValue,
    pub max_file_size: i64,
    pub duplicate_strategy: String,
    pub filename_strategy: String,
    pub transformations: JsonValue,
    pub created_at: String,
    pub updated_at: String,
}

/// Admits a storage connection for a preset: it must exist (`connection_project`
/// is its project, or `None` when there is no such connection) and belong to the
/// preset's project.
pub fn check_preset_connection(connection_project: Option<&str>, preset_project: &str) -> (r: Result<(), ApiError>)
    ensures
        connection_project is None ==> (r matches Err(e) && e.is_validation("storage connection not found"@)),
        connection_project matches Some(p) ==> (r is Ok <==> p@ == preset_project@),
        connection_project matches Some(p) && p@ != preset_project@ ==> (r matches Err(e) && e.is_validation(
            "storage connection belongs to a different project"@,
        )),
{
    match connection_project {
        None => Err(ApiError::validation("storage connection not found")),
        Some(p) => if str_eq(p, preset_project) {
            Ok(())
        } else {
            Err(ApiError::validation("storage connection belongs to a different project"))
        },
    }
}

} // verus!
