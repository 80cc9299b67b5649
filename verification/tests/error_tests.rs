use lcars::error::AppError;

#[test]
fn test_not_found_status() {
    let error = AppError::NotFound("test".to_string());
    let response = error.into_response();
    assert_eq!(response.status(), 404);
}

#[test]
fn test_unauthorized_status() {
    let error = AppError::Unauthorized;
    let response = error.into_response();
    assert_eq!(response.status(), 401);
}

#[test]
fn test_bad_request_status() {
    let error = AppError::BadRequest("invalid".to_string());
    let response = error.into_response();
    assert_eq!(response.status(), 400);
}

#[test]
fn test_forbidden_status() {
    let error = AppError::Forbidden;
    let response = error.into_response();
    assert_eq!(response.status(), 403);
}

#[test]
fn internal_errors_are_not_exposed() {
    for e in [
        AppError::Internal("secret".to_string()),
        AppError::Database("db".to_string()),
        AppError::Sqlite("sql".to_string()),
        AppError::Config("cfg".to_string()),
    ] {
        let r = e.into_response();
        assert_eq!(r.status, 500);
        assert!(r.message.is_none());
    }
    let r = AppError::Config("x".to_string()).into_response();
    assert_eq!(r.error, "configuration_error");
    let r = AppError::BadRequest("why".to_string()).into_response();
    assert_eq!(r.error, "bad_request");
    assert_eq!(r.message, Some("why".to_string()));
}

#[test]
fn error_text_names_the_kind() {
    assert_eq!(AppError::NotFound("user 3".to_string()).text(), "Not found: user 3");
    assert_eq!(AppError::BadRequest("no".to_string()).text(), "Bad request: no");
    assert_eq!(AppError::Internal("boom".to_string()).text(), "Internal error: boom");
    assert_eq!(AppError::Sqlite("locked".to_string()).text(), "Database error: locked");
    assert_eq!(AppError::Config("missing".to_string()).text(), "Configuration error: missing");
    assert_eq!(AppError::Unauthorized.text(), "Unauthorized");
    assert_eq!(AppError::Forbidden.text(), "Forbidden");
}
