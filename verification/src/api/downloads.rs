//! The download management endpoints' types and the checks of what a
//! request or a stored download holds.

use vstd::prelude::*;
use crate::error::AppError;
use crate::models::MediaType;
use crate::text::{append_chars, chars_eq_str, chars_of, string_of};

verus! {

/// Query parameters for listing downloads.
pub struct ListDownloadsQuery {
    /// Filter by status (queued, downloading, seeding, processing, completed, failed, paused).
    pub status: Option<String>,
    /// Filter by source type (torrent, soulseek).
    pub source: Option<String>,
}

/// Query parameters for deleting a download.
pub struct DeleteDownloadQuery {
    /// Whether to delete downloaded files (default: false).
    pub delete_files: Option<bool>,
}

/// Success response for operations without specific data.
pub struct SuccessResponse {
    pub success: bool,
    pub message: Option<String>,
}

/// The statuses a download list can be filtered by.
pub open spec fn download_status_name(s: Seq<char>) -> bool {
    s == "queued"@ || s == "downloading"@ || s == "seeding"@ || s == "processing"@ || s
        == "completed"@ || s == "failed"@ || s == "paused"@
}

/// The sources a download list can be filtered by.
pub open spec fn download_source_name(s: Seq<char>) -> bool {
    s == "torrent"@ || s == "soulseek"@
}

/// Checks the filters of a download list: a status filter must name a
/// download status and a source filter a download source (the status is
/// checked first).
pub fn check_download_filters(status: Option<&str>, source: Option<&str>) -> (r: Result<(), AppError>)
    ensures
        (status matches Some(s) && !download_status_name(s@)) ==> (r matches Err(
            AppError::BadRequest(m),
        ) && m@ == "Invalid status: "@ + status->0@),
        !(status matches Some(s) && !download_status_name(s@)) && (source matches Some(s)
            && !download_source_name(s@)) ==> (r matches Err(AppError::BadRequest(m)) && m@
            == "Invalid source: "@ + source->0@),
        r is Ok <==> !(status matches Some(s) && !download_status_name(s@)) && !(source matches Some(
            s,
        ) && !download_source_name(s@)),
{
    if let Some(st) = status {
        let v = chars_of(st);
        let ok = chars_eq_str(v.as_slice(), "queued") || chars_eq_str(v.as_slice(), "downloading")
            || chars_eq_str(v.as_slice(), "seeding") || chars_eq_str(v.as_slice(), "processing")
            || chars_eq_str(v.as_slice(), "completed") || chars_eq_str(v.as_slice(), "failed")
            || chars_eq_str(v.as_slice(), "paused");
        if !ok {
            let mut m = chars_of("Invalid status: ");
            append_chars(&mut m, v.as_slice());
            return Err(AppError::BadRequest(string_of(m.as_slice())));
        }
    }
    if let Some(so) = source {
        let v = chars_of(so);
        if !(chars_eq_str(v.as_slice(), "torrent") || chars_eq_str(v.as_slice(), "soulseek")) {
            let mut m = chars_of("Invalid source: ");
            append_chars(&mut m, v.as_slice());
            return Err(AppError::BadRequest(string_of(m.as_slice())));
        }
    }
    Ok(())
}

/// The media type a stored download names; any other text is a fault of
/// the store, reported as an internal error.
pub fn stored_media_type(s: &str) -> (r: Result<MediaType, AppError>)
    ensures
        r matches Ok(t) ==> t.name_spec() == s@,
        r is Err <==> forall|t: MediaType| t.name_spec() != s@,
        r matches Err(e) ==> (e matches AppError::Internal(m) && m@ == "Invalid media type in database: "@
            + s@),
{
    match MediaType::parse(s) {
        Some(t) => Ok(t),
        None => {
            let mut m = chars_of("Invalid media type in database: ");
            append_chars(&mut m, chars_of(s).as_slice());
            Err(AppError::Internal(string_of(m.as_slice())))
        },
    }
}

} // verus!
