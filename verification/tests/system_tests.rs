use lcars::api::system::{
    check_host_ip, indexer_test_response, indexer_url_host, job_trigger_response, list_jobs,
    vpn_interfaces, vpn_status, ActivityQuery, CreateIndexerRequest, IndexerResponse, JobName, ProbeOutcome,
    UpdateIndexerRequest,
};
use lcars::error::AppError;
use lcars::models::Indexer;
use lcars::net::IpParsed;

fn request(name: &str, kind: &str, url: &str, priority: Option<i32>) -> CreateIndexerRequest {
    CreateIndexerRequest {
        name: name.to_string(),
        indexer_type: kind.to_string(),
        url: url.to_string(),
        api_key: None,
        enabled: None,
        priority,
        categories: None,
    }
}

fn bad(r: Result<(), AppError>) -> String {
    match r {
        Err(AppError::BadRequest(m)) => m,
        _ => panic!("expected a bad request"),
    }
}

#[test]
fn create_indexer_validation() {
    assert!(request("Jackett", "torznab", "https://example.com/api", Some(10)).validate().is_ok());
    assert_eq!(bad(request("", "public", "https://x.org", None).validate()), "Name must be 1-100 characters");
    assert_eq!(
        bad(request(&"n".repeat(101), "public", "https://x.org", None).validate()),
        "Name must be 1-100 characters"
    );
    assert_eq!(
        bad(request("a", "other", "https://x.org", None).validate()),
        "Invalid indexer type. Must be one of: public, private, torznab, newznab"
    );
    assert_eq!(bad(request("a", "public", "not a url", None).validate()), "Invalid URL format");
    assert_eq!(
        bad(request("a", "public", "https://x.org", Some(101)).validate()),
        "Priority must be between 0 and 100"
    );
}

#[test]
fn indexer_urls() {
    assert_eq!(indexer_url_host("https://example.com/x").unwrap(), Some("example.com".to_string()));
    match indexer_url_host("ftp://example.com") {
        Err(AppError::BadRequest(m)) => assert_eq!(m, "URL must use http or https"),
        _ => panic!(),
    }
    match indexer_url_host("http://localhost:9117") {
        Err(AppError::BadRequest(m)) => assert_eq!(m, "Localhost URLs not allowed"),
        _ => panic!(),
    }
    match indexer_url_host("::::") {
        Err(AppError::BadRequest(m)) => assert_eq!(m, "Invalid URL format"),
        _ => panic!(),
    }
    assert_eq!(indexer_url_host("http://10.0.0.1/").unwrap(), Some("10.0.0.1".to_string()));
}

#[test]
fn host_addresses() {
    assert_eq!(bad(check_host_ip(Some(IpParsed::V4(10, 0, 0, 1)))), "Private/loopback IPs not allowed");
    assert_eq!(bad(check_host_ip(Some(IpParsed::V4(172, 20, 1, 1)))), "Private/loopback IPs not allowed");
    assert_eq!(bad(check_host_ip(Some(IpParsed::V4(169, 254, 1, 1)))), "Private/loopback IPs not allowed");
    assert_eq!(bad(check_host_ip(Some(IpParsed::V4(0, 1, 2, 3)))), "Reserved IP ranges not allowed");
    assert!(check_host_ip(Some(IpParsed::V4(172, 32, 0, 1))).is_ok());
    assert!(check_host_ip(Some(IpParsed::V4(8, 8, 8, 8))).is_ok());
    assert_eq!(
        bad(check_host_ip(Some(IpParsed::V6(0, 0, 0, 0, 0, 0, 0, 1)))),
        "Loopback/unspecified IPs not allowed"
    );
    assert!(check_host_ip(Some(IpParsed::V6(0x2001, 0xdb8, 0, 0, 0, 0, 0, 1))).is_ok());
    assert!(check_host_ip(None).is_ok());
}

#[test]
fn jobs() {
    assert_eq!(JobName::parse("refresh_metadata").unwrap(), JobName::RefreshMetadata);
    match JobName::parse("nope") {
        Err(AppError::NotFound(m)) => assert_eq!(m, "Job 'nope' not found"),
        _ => panic!(),
    }
    let r = job_trigger_response(JobName::CleanupCompleted);
    assert!(r.success);
    assert_eq!(r.job, "cleanup_completed");
    assert_eq!(r.message, "Job 'cleanup_completed' has been triggered");
    let jobs = list_jobs();
    assert_eq!(jobs.len(), 5);
    assert_eq!(jobs[2].name, "check_new_episodes");
}

#[test]
fn vpn() {
    let names = vpn_interfaces();
    let s = vpn_status(&names, &[false, false, true, true, false, false, false]);
    assert!(s.connected);
    assert_eq!(s.interface, Some("wg1".to_string()));
    let s = vpn_status(&names, &[false; 7]);
    assert!(!s.connected && s.interface.is_none());
}

#[test]
fn indexer_response_masks_key() {
    let i = Indexer {
        id: 3,
        name: "n".to_string(),
        indexer_type: "public".to_string(),
        url: "https://x".to_string(),
        api_key: Some("SECRET".to_string()),
        enabled: true,
        priority: 5,
        categories: None,
        last_check: None,
        last_error: None,
        created_at: "now".to_string(),
    };
    let r = IndexerResponse::from_indexer(i);
    assert!(r.has_api_key);
    assert_eq!(r.priority, 5);
}

#[test]
fn indexer_test_reports() {
    let ok = indexer_test_response(ProbeOutcome::Answered {
        status: 200,
        status_text: "200 OK".to_string(),
        elapsed_ms: 35,
    });
    assert!(ok.success);
    assert_eq!(ok.response_time_ms, Some(35));
    assert_eq!(ok.error, None);
    let bad = indexer_test_response(ProbeOutcome::Answered {
        status: 503,
        status_text: "503 Service Unavailable".to_string(),
        elapsed_ms: 12,
    });
    assert!(!bad.success);
    assert_eq!(bad.response_time_ms, Some(12));
    assert_eq!(bad.error, Some("HTTP 503 Service Unavailable".to_string()));
    let down = indexer_test_response(ProbeOutcome::Failed { error: "connection refused".to_string() });
    assert!(!down.success);
    assert_eq!(down.response_time_ms, None);
    assert_eq!(down.error, Some("connection refused".to_string()));
}

#[test]
fn indexer_update_needs_a_field() {
    let none = UpdateIndexerRequest {
        name: None,
        indexer_type: None,
        url: None,
        api_key: None,
        enabled: None,
        priority: None,
        categories: None,
    };
    match none.check() {
        Err(AppError::BadRequest(m)) => assert_eq!(m, "No fields to update provided"),
        _ => panic!("empty update accepted"),
    }
    let some = UpdateIndexerRequest { enabled: Some(false), ..none };
    assert!(some.check().is_ok());
}

#[test]
fn activity_limit_defaults_and_caps() {
    let q = |limit| ActivityQuery { event_type: None, limit, before: None };
    assert_eq!(q(None).row_limit(), 50);
    assert_eq!(q(Some(20)).row_limit(), 20);
    assert_eq!(q(Some(5000)).row_limit(), 500);
    assert_eq!(q(Some(-3)).row_limit(), -3);
}

#[test]
fn ipv6_loopback_url_is_refused() {
    match indexer_url_host("http://[::1]:9117/api") {
        Err(AppError::BadRequest(m)) => assert_eq!(m, "Localhost URLs not allowed"),
        other => panic!("unexpected {:?}", other.is_ok()),
    }
    assert_eq!(indexer_url_host("http://[2001:db8::1]:9117/").unwrap(), Some("2001:db8::1".to_string()));
}
