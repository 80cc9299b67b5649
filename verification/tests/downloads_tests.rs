use lcars::api::downloads::{check_download_filters, stored_media_type};
use lcars::error::AppError;
use lcars::models::MediaType;

#[test]
fn download_filters_name_known_values() {
    assert!(check_download_filters(None, None).is_ok());
    assert!(check_download_filters(Some("seeding"), Some("soulseek")).is_ok());
    match check_download_filters(Some("stalled"), Some("ftp")) {
        Err(AppError::BadRequest(m)) => assert_eq!(m, "Invalid status: stalled"),
        _ => panic!("unknown status accepted"),
    }
    match check_download_filters(Some("paused"), Some("ftp")) {
        Err(AppError::BadRequest(m)) => assert_eq!(m, "Invalid source: ftp"),
        _ => panic!("unknown source accepted"),
    }
}

#[test]
fn stored_media_types_read_back() {
    assert_eq!(stored_media_type("episode").ok(), Some(MediaType::Episode));
    match stored_media_type("podcast") {
        Err(AppError::Internal(m)) => assert_eq!(m, "Invalid media type in database: podcast"),
        _ => panic!("unknown media type accepted"),
    }
}
