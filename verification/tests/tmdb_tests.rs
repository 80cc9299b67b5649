use lcars::error::AppError;
use lcars::tmdb::{api_url, check_response_status, parse_failed, request_failed, TmdbClient};

#[test]
fn test_poster_url() {
    let client = TmdbClient::new("test-key".to_string()).unwrap();
    let url = client.poster_url("/abc123.jpg", "w500");
    assert_eq!(url, "https://image.tmdb.org/t/p/w500/abc123.jpg");
}

#[test]
fn test_backdrop_url() {
    let client = TmdbClient::new("test-key".to_string()).unwrap();
    let url = client.backdrop_url("/xyz789.jpg", "original");
    assert_eq!(url, "https://image.tmdb.org/t/p/original/xyz789.jpg");
}

#[test]
fn test_empty_api_key_rejected() {
    let result = TmdbClient::new("".to_string());
    assert!(result.is_err());
}

#[test]
fn test_whitespace_api_key_rejected() {
    let result = TmdbClient::new("   ".to_string());
    assert!(result.is_err());
}

#[test]
fn test_blank_key_message() {
    match TmdbClient::new(" \t".to_string()) {
        Err(AppError::Internal(m)) => assert_eq!(m, "TMDB API key cannot be empty"),
        _ => panic!("blank key accepted"),
    }
}

#[test]
fn test_client_keeps_key() {
    let client = TmdbClient::new_shared("abc".to_string()).unwrap();
    assert_eq!(client.api_key(), "abc");
}

#[test]
fn test_client_build_error_reported() {
    match TmdbClient::from_http_client("k".to_string(), Err("no resolver".to_string())) {
        Err(AppError::Internal(m)) => assert_eq!(m, "Failed to create HTTP client: no resolver"),
        _ => panic!("build error not reported"),
    }
}

#[test]
fn test_api_url() {
    assert_eq!(api_url("/tv/1399"), "https://api.themoviedb.org/3/tv/1399");
}

#[test]
fn test_response_status_errors() {
    assert!(check_response_status("/movie/1", 200, "200 OK").is_none());
    assert!(check_response_status("/movie/1", 204, "204 No Content").is_none());
    match check_response_status("/movie/1", 401, "401 Unauthorized") {
        Some(AppError::Internal(m)) => assert_eq!(m, "TMDB API key is invalid or missing"),
        _ => panic!("401"),
    }
    match check_response_status("/movie/1", 404, "404 Not Found") {
        Some(AppError::NotFound(m)) => assert_eq!(m, "TMDB resource not found: /movie/1"),
        _ => panic!("404"),
    }
    match check_response_status("/movie/1", 429, "429 Too Many Requests") {
        Some(AppError::Internal(m)) => {
            assert_eq!(m, "TMDB rate limit exceeded, please try again later")
        }
        _ => panic!("429"),
    }
    match check_response_status("/movie/1", 503, "503 Service Unavailable") {
        Some(AppError::Internal(m)) => {
            assert_eq!(m, "TMDB API /movie/1 returned error status: 503 Service Unavailable")
        }
        _ => panic!("503"),
    }
}

#[test]
fn test_request_and_parse_failures() {
    match request_failed("/search/tv", "timed out") {
        AppError::Internal(m) => assert_eq!(m, "TMDB request to /search/tv failed: timed out"),
        _ => panic!("request"),
    }
    match parse_failed("/search/tv", "bad json") {
        AppError::Internal(m) => {
            assert_eq!(m, "Failed to parse TMDB response from /search/tv: bad json")
        }
        _ => panic!("parse"),
    }
}
