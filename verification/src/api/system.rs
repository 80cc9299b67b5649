//! The system endpoints: background jobs, status, indexers and mounts.
//! What stands here is what the handlers decide: which job a name runs,
//! which indexer definitions and URLs are accepted, which VPN interface is
//! reported.

use vstd::prelude::*;
use crate::error::AppError;
use crate::models::Indexer;
use crate::net::{
    parse_url, url_parts, v4_link_local, v4_loopback, v4_private, v6_loopback, v6_unspecified,
    IpParsed,
};
use crate::text::{append_chars, chars_eq_str, chars_of, slice_chars, string_of};

verus! {

/// Response for successful job trigger.
pub struct JobTriggerResponse {
    pub success: bool,
    pub job: String,
    pub message: String,
}

/// Job information for listing.
pub struct JobInfo {
    pub name: String,
    pub description: String,
}

/// System status response.
pub struct SystemStatus {
    pub version: String,
    pub uptime_seconds: u64,
    pub database_size_bytes: u64,
    pub downloads: DownloadStats,
    pub vpn: VpnStatus,
}

/// Download statistics.
pub struct DownloadStats {
    pub active: i64,
    pub queued: i64,
    pub completed: i64,
    pub failed: i64,
    pub total_download_speed: u64,
    pub total_upload_speed: u64,
}

/// VPN connection status.
pub struct VpnStatus {
    pub connected: bool,
    pub interface: Option<String>,
}

/// Query parameters for activity listing.
pub struct ActivityQuery {
    pub event_type: Option<String>,
    pub limit: Option<i64>,
    pub before: Option<String>,
}

impl ActivityQuery {
    /// How many entries to list: 50 unless the query asks, at most 500.
    pub fn row_limit(&self) -> (r: i64)
        ensures
            r == match self.limit {
                Some(l) => if l < 500 { l } else { 500 },
                None => 50,
            },
    {
        match self.limit {
            Some(l) => if l < 500 { l } else { 500 },
            None => 50,
        }
    }
}

/// Indexer response (masks API key).
pub struct IndexerResponse {
    pub id: i64,
    pub name: String,
    pub indexer_type: String,
    pub url: String,
    pub has_api_key: bool,
    pub enabled: bool,
    pub priority: i32,
    pub categories: Option<String>,
    pub last_check: Option<String>,
    pub last_error: Option<String>,
    pub created_at: String,
}

impl IndexerResponse {
    /// The response for an indexer: its fields, with only whether it has an
    /// API key in place of the key.
    pub fn from_indexer(i: Indexer) -> (r: Self)
        ensures
            r.id == i.id && r.name == i.name && r.indexer_type == i.indexer_type && r.url == i.url,
            r.has_api_key == i.api_key is Some,
            r.enabled == i.enabled && r.priority == i.priority && r.categories == i.categories,
            r.last_check == i.last_check && r.last_error == i.last_error,
            r.created_at == i.created_at,
    {
        IndexerResponse {
            id: i.id,
            name: i.name,
            indexer_type: i.indexer_type,
            url: i.url,
            has_api_key: i.api_key.is_some(),
            enabled: i.enabled,
            priority: i.priority,
            categories: i.categories,
            last_check: i.last_check,
            last_error: i.last_error,
            created_at: i.created_at,
        }
    }
}

/// Request to create an indexer.
pub struct CreateIndexerRequest {
    pub name: String,
    pub indexer_type: String,
    pub url: String,
    pub api_key: Option<String>,
    pub enabled: Option<bool>,
    pub priority: Option<i32>,
    pub categories: Option<String>,
}

/// The indexer types.
pub open spec fn valid_indexer_type(t: Seq<char>) -> bool {
    t == "public"@ || t == "private"@ || t == "torznab"@ || t == "newznab"@
}

/// Why a request to create an indexer is refused, if it is: a name of 0 or
/// more than 100 bytes, an unknown type, a URL the parser refuses, a
/// priority outside 0 to 100 (checked in that order).
pub open spec fn create_indexer_error(req: CreateIndexerRequest) -> Option<Seq<char>> {
    if req.name@.len() == 0 || vstd::utf8::encode_utf8(req.name@).len() > 100 {
        Some("Name must be 1-100 characters"@)
    } else if !valid_indexer_type(req.indexer_type@) {
        Some("Invalid indexer type. Must be one of: public, private, torznab, newznab"@)
    } else if url_parts(req.url@) is None {
        Some("Invalid URL format"@)
    } else if req.priority matches Some(p) && !(0 <= p <= 100) {
        Some("Priority must be between 0 and 100"@)
    } else {
        None
    }
}

/// The result of a check: `Ok` when there is no error message, else a bad
/// request with the message.
pub open spec fn checked(r: Result<(), AppError>, error: Option<Seq<char>>) -> bool {
    match error {
        None => r is Ok,
        Some(m) => r matches Err(AppError::BadRequest(x)) && x@ == m,
    }
}

impl CreateIndexerRequest {
    /// Validates the request.
    pub fn validate(&self) -> (r: Result<(), AppError>)
        ensures
            checked(r, create_indexer_error(*self)),
    {
        if self.name.as_str().is_empty() || self.name.as_str().as_bytes().len() > 100 {
            return Err(AppError::BadRequest("Name must be 1-100 characters".to_owned()));
        }
        let t = chars_of(self.indexer_type.as_str());
        let tv = t.as_slice();
        if !(chars_eq_str(tv, "public") || chars_eq_str(tv, "private") || chars_eq_str(tv, "torznab")
            || chars_eq_str(tv, "newznab")) {
            return Err(
                AppError::BadRequest(
                    "Invalid indexer type. Must be one of: public, private, torznab, newznab".to_owned(),
                ),
            );
        }
        if parse_url(self.url.as_str()).is_none() {
            return Err(AppError::BadRequest("Invalid URL format".to_owned()));
        }
        match self.priority {
            Some(p) => {
                if p < 0 || p > 100 {
                    return Err(AppError::BadRequest("Priority must be between 0 and 100".to_owned()));
                }
            },
            None => {},
        }
        Ok(())
    }
}

/// A host as an address reads it: an IPv6 literal, which a URL's host
/// carries in square brackets, without them; any other host as it is.
pub open spec fn unbracketed(h: Seq<char>) -> Seq<char> {
    if h.len() >= 2 && h[0] == '[' && h[h.len() - 1] == ']' {
        h.subrange(1, h.len() - 1)
    } else {
        h
    }
}

/// The host without the brackets of an IPv6 literal.
fn strip_brackets(h: &[char]) -> (r: Vec<char>)
    ensures
        r@ == unbracketed(h@),
{
    if h.len() >= 2 && h[0] == '[' && h[h.len() - 1] == ']' {
        slice_chars(h, 1, h.len() - 1)
    } else {
        slice_chars(h, 0, h.len())
    }
}

/// Why an indexer URL is refused before its host is looked at, if it is:
/// it does not parse, its scheme is not http or https, or its host is a
/// localhost name.
pub open spec fn url_error(url: Seq<char>) -> Option<Seq<char>> {
    match url_parts(url) {
        None => Some("Invalid URL format"@),
        Some((scheme, host)) => if !(scheme == "http"@ || scheme == "https"@) {
            Some("URL must use http or https"@)
        } else {
            match host {
                Some(h) => {
                    let b = unbracketed(h);
                    if b == "localhost"@ || b == "127.0.0.1"@ || b == "0.0.0.0"@ || b == "::1"@ {
                        Some("Localhost URLs not allowed"@)
                    } else {
                        None
                    }
                },
                None => None,
            }
        },
    }
}

/// The host of an indexer URL whose scheme and host name are accepted,
/// an IPv6 literal without its brackets (`None` for a URL without a host);
/// the refusal otherwise.
pub fn indexer_url_host(url: &str) -> (r: Result<Option<String>, AppError>)
    ensures
        url_error(url@) is None ==> (r matches Ok(h) && url_parts(url@) matches Some(p) && h.deep_view()
            == match p.1 {
            Some(x) => Some(unbracketed(x)),
            None => None,
        }),
        url_error(url@) matches Some(m) ==> (r matches Err(AppError::BadRequest(x)) && x@ == m),
{
    let parts = parse_url(url);
    match parts {
        None => Err(AppError::BadRequest("Invalid URL format".to_owned())),
        Some((scheme, host)) => {
            let sc = chars_of(scheme.as_str());
            if !(chars_eq_str(sc.as_slice(), "http") || chars_eq_str(sc.as_slice(), "https")) {
                return Err(AppError::BadRequest("URL must use http or https".to_owned()));
            }
            match host {
                None => Ok(None),
                Some(h) => {
                    let hc = chars_of(h.as_str());
                    let bare = strip_brackets(hc.as_slice());
                    let hv = bare.as_slice();
                    if chars_eq_str(hv, "localhost") || chars_eq_str(hv, "127.0.0.1") || chars_eq_str(
                        hv,
                        "0.0.0.0",
                    ) || chars_eq_str(hv, "::1") {
                        return Err(AppError::BadRequest("Localhost URLs not allowed".to_owned()));
                    }
                    Ok(Some(string_of(hv)))
                },
            }
        },
    }
}

/// Why a host that is an IP address is refused, if it is: an IPv4 address
/// that is loopback, private, link-local or in `0.0.0.0/8`, or an IPv6
/// address that is loopback or unspecified.
pub open spec fn ip_error(ip: Option<IpParsed>) -> Option<Seq<char>> {
    match ip {
        Some(IpParsed::V4(a, b, c, d)) => if v4_loopback(a) || v4_private(a, b) || v4_link_local(a, b) {
            Some("Private/loopback IPs not allowed"@)
        } else if a == 0 || (a == 169 && b == 254) {
            Some("Reserved IP ranges not allowed"@)
        } else {
            None
        },
        Some(IpParsed::V6(g0, g1, g2, g3, g4, g5, g6, g7)) => if v6_loopback(
            (g0, g1, g2, g3, g4, g5, g6, g7),
        ) || v6_unspecified((g0, g1, g2, g3, g4, g5, g6, g7)) {
            Some("Loopback/unspecified IPs not allowed"@)
        } else {
            None
        },
        None => None,
    }
}

/// An IPv4 address as a 32-bit number.
pub open spec fn v4_number(a: u8, b: u8, c: u8, d: u8) -> int {
    a * 16777216 + b * 65536 + c * 256 + d
}

/// Whether an address lies in the aligned block of `size` addresses that
/// holds `base`.
pub open spec fn in_block(addr: int, base: int, size: int) -> bool {
    addr / size == base / size
}

proof fn lemma_v4_blocks(a: u8, b: u8, c: u8, d: u8)
    ensures
        v4_number(a, b, c, d) / 16777216 == a,
        v4_number(a, b, c, d) / 1048576 == (a * 256 + b) / 16,
        v4_number(a, b, c, d) / 65536 == a * 256 + b,
{
    let n = v4_number(a, b, c, d);
    assert(n / 65536 == a * 256 + b) by (nonlinear_arith)
        requires
            n == a * 16777216 + b * 65536 + c * 256 + d,
            0 <= a < 256,
            0 <= b < 256,
            0 <= c < 256,
            0 <= d < 256,
    ;
    assert(n / 16777216 == a) by (nonlinear_arith)
        requires
            n == a * 16777216 + b * 65536 + c * 256 + d,
            0 <= a < 256,
            0 <= b < 256,
            0 <= c < 256,
            0 <= d < 256,
    ;
    assert(n / 1048576 == (n / 65536) / 16) by (nonlinear_arith)
        requires
            n >= 0,
    ;
}

/// The IPv4 addresses an indexer URL may not point at are exactly those of
/// the reserved blocks: `0.0.0.0/8`, `10.0.0.0/8`, `127.0.0.0/8`,
/// `169.254.0.0/16`, `172.16.0.0/12` and `192.168.0.0/16`; of IPv6
/// addresses exactly `::` and `::1`.
pub proof fn lemma_refused_addresses_are_reserved_blocks(ip: IpParsed)
    ensures
        ip matches IpParsed::V4(a, b, c, d) ==> (ip_error(Some(ip)) is Some <==> {
            let n = v4_number(a, b, c, d);
            ||| in_block(n, v4_number(0, 0, 0, 0), 16777216)
            ||| in_block(n, v4_number(10, 0, 0, 0), 16777216)
            ||| in_block(n, v4_number(127, 0, 0, 0), 16777216)
            ||| in_block(n, v4_number(169, 254, 0, 0), 65536)
            ||| in_block(n, v4_number(172, 16, 0, 0), 1048576)
            ||| in_block(n, v4_number(192, 168, 0, 0), 65536)
        }),
        ip matches IpParsed::V6(g0, g1, g2, g3, g4, g5, g6, g7) ==> (ip_error(Some(ip)) is Some
            <==> (g0 == 0 && g1 == 0 && g2 == 0 && g3 == 0 && g4 == 0 && g5 == 0 && g6 == 0 && g7
            <= 1)),
{
    match ip {
        IpParsed::V4(a, b, c, d) => {
            lemma_v4_blocks(a, b, c, d);
            lemma_v4_blocks(0, 0, 0, 0);
            lemma_v4_blocks(10, 0, 0, 0);
            lemma_v4_blocks(127, 0, 0, 0);
            lemma_v4_blocks(169, 254, 0, 0);
            lemma_v4_blocks(172, 16, 0, 0);
            lemma_v4_blocks(192, 168, 0, 0);
            let k = a * 256 + b;
            assert((k / 16 == (172 * 256 + 16) / 16) <==> (a == 172 && 16 <= b <= 31)) by (
            nonlinear_arith)
                requires
                    k == a * 256 + b,
                    0 <= a < 256,
                    0 <= b < 256,
            ;
            assert((k == 169 * 256 + 254) <==> (a == 169 && b == 254)) by (nonlinear_arith)
                requires
                    k == a * 256 + b,
                    0 <= a < 256,
                    0 <= b < 256,
            ;
            assert((k == 192 * 256 + 168) <==> (a == 192 && b == 168)) by (nonlinear_arith)
                requires
                    k == a * 256 + b,
                    0 <= a < 256,
                    0 <= b < 256,
            ;
        },
        IpParsed::V6(..) => {},
    }
}

/// Checks the address an indexer URL's host parses to (`None` when the
/// host is a name, not an address).
pub fn check_host_ip(ip: Option<IpParsed>) -> (r: Result<(), AppError>)
    ensures
        checked(r, ip_error(ip)),
{
    match ip {
        Some(IpParsed::V4(a, b, _c, _d)) => {
            let loopback = a == 127;
            let private = a == 10 || (a == 172 && 16 <= b && b <= 31) || (a == 192 && b == 168);
            let link_local = a == 169 && b == 254;
            if loopback || private || link_local {
                return Err(AppError::BadRequest("Private/loopback IPs not allowed".to_owned()));
            }
            if a == 0 || (a == 169 && b == 254) {
                return Err(AppError::BadRequest("Reserved IP ranges not allowed".to_owned()));
            }
            Ok(())
        },
        Some(IpParsed::V6(g0, g1, g2, g3, g4, g5, g6, g7)) => {
            let zero_head = g0 == 0 && g1 == 0 && g2 == 0 && g3 == 0 && g4 == 0 && g5 == 0 && g6 == 0;
            if zero_head && (g7 == 1 || g7 == 0) {
                return Err(AppError::BadRequest("Loopback/unspecified IPs not allowed".to_owned()));
            }
            Ok(())
        },
        None => Ok(()),
    }
}

/// A URL and host address that pass both checks are an http or https URL
/// whose host (an IPv6 literal read without its brackets) is neither a
/// localhost name nor the IPv6 loopback text, nor a loopback, private,
/// link-local or `0.0.0.0/8` IPv4 address, nor the IPv6 loopback or
/// unspecified address.
pub proof fn lemma_accepted_url_is_public(url: Seq<char>, ip: Option<IpParsed>)
    requires
        url_error(url) is None,
        ip_error(ip) is None,
    ensures
        url_parts(url) matches Some((scheme, host)) && (scheme == "http"@ || scheme == "https"@)
            && (host matches Some(h) ==> unbracketed(h) != "localhost"@ && unbracketed(h)
            != "127.0.0.1"@ && unbracketed(h) != "0.0.0.0"@ && unbracketed(h) != "::1"@),
        ip matches Some(IpParsed::V4(a, b, c, d)) ==> !v4_loopback(a) && !v4_private(a, b)
            && !v4_link_local(a, b) && a != 0,
        ip matches Some(IpParsed::V6(g0, g1, g2, g3, g4, g5, g6, g7)) ==> !v6_loopback(
            (g0, g1, g2, g3, g4, g5, g6, g7),
        ) && !v6_unspecified((g0, g1, g2, g3, g4, g5, g6, g7)),
{
}

/// Request to update an indexer.
pub struct UpdateIndexerRequest {
    pub name: Option<String>,
    pub indexer_type: Option<String>,
    pub url: Option<String>,
    pub api_key: Option<String>,
    pub enabled: Option<bool>,
    pub priority: Option<i32>,
    pub categories: Option<String>,
}

impl UpdateIndexerRequest {
    /// Whether the update changes nothing.
    pub open spec fn changes_nothing(&self) -> bool {
        self.name is None && self.indexer_type is None && self.url is None && self.api_key is None
            && self.enabled is None && self.priority is None && self.categories is None
    }

    /// Checks that the update changes at least one field.
    pub fn check(&self) -> (r: Result<(), AppError>)
        ensures
            r is Ok <==> !self.changes_nothing(),
            r matches Err(e) ==> (e matches AppError::BadRequest(m) && m@
                == "No fields to update provided"@),
    {
        if self.name.is_none() && self.indexer_type.is_none() && self.url.is_none()
            && self.api_key.is_none() && self.enabled.is_none() && self.priority.is_none()
            && self.categories.is_none() {
            Err(AppError::BadRequest("No fields to update provided".to_owned()))
        } else {
            Ok(())
        }
    }
}

/// Response from testing an indexer.
pub struct IndexerTestResponse {
    pub success: bool,
    pub response_time_ms: Option<u64>,
    pub error: Option<String>,
}

/// What an indexer test found: the answer's status and how long it took,
/// or why no answer came.
pub enum ProbeOutcome {
    /// An answer came: its status code, the status's text (such as
    /// `503 Service Unavailable`) and the time it took in milliseconds.
    Answered { status: u16, status_text: String, elapsed_ms: u64 },
    /// The request failed; the error's text.
    Failed { error: String },
}

/// The report of an indexer test: a 2xx answer is a success; another
/// answer an `HTTP <status>` error, with its timing; a failed request its
/// error, without timing.
pub fn indexer_test_response(outcome: ProbeOutcome) -> (r: IndexerTestResponse)
    ensures
        match outcome {
            ProbeOutcome::Answered { status, status_text, elapsed_ms } => {
                &&& r.success == (200 <= status <= 299)
                &&& r.response_time_ms == Some(elapsed_ms)
                &&& r.success ==> r.error is None
                &&& !r.success ==> (r.error matches Some(m) && m@ == "HTTP "@ + status_text@)
            },
            ProbeOutcome::Failed { error } => !r.success && r.response_time_ms is None && (
            r.error matches Some(m) && m@ == error@),
        },
{
    match outcome {
        ProbeOutcome::Answered { status, status_text, elapsed_ms } => {
            let success = 200 <= status && status <= 299;
            let error = if success {
                None
            } else {
                let mut m = chars_of("HTTP ");
                append_chars(&mut m, chars_of(status_text.as_str()).as_slice());
                Some(string_of(m.as_slice()))
            };
            IndexerTestResponse { success, response_time_ms: Some(elapsed_ms), error }
        },
        ProbeOutcome::Failed { error } => IndexerTestResponse {
            success: false,
            response_time_ms: None,
            error: Some(error),
        },
    }
}

/// Mount information response.
pub struct MountInfo {
    pub name: String,
    pub path: String,
    pub available: bool,
    pub free_bytes: Option<u64>,
    pub total_bytes: Option<u64>,
}

/// Response from testing a mount.
pub struct MountTestResponse {
    pub success: bool,
    pub available: bool,
    pub free_bytes: Option<u64>,
    pub error: Option<String>,
}

/// Success response for operations without specific data.
pub struct SuccessResponse {
    pub success: bool,
    pub message: Option<String>,
}

// ---------------------------------------------------------------------------
// Jobs
// ---------------------------------------------------------------------------

/// Available job names.
#[derive(Debug, Clone, Copy, PartialEq, Eq, Structural)]
pub enum JobName {
    SearchMissing,
    RefreshMetadata,
    CheckNewEpisodes,
    CheckNewReleases,
    CleanupCompleted,
}

impl JobName {
    /// The job's name.
    pub open spec fn name_spec(self) -> Seq<char> {
        match self {
            JobName::SearchMissing => "search_missing"@,
            JobName::RefreshMetadata => "refresh_metadata"@,
            JobName::CheckNewEpisodes => "check_new_episodes"@,
            JobName::CheckNewReleases => "check_new_releases"@,
            JobName::CleanupCompleted => "cleanup_completed"@,
        }
    }

    /// The job's name, as displayed and as given in requests.
    pub fn as_str(&self) -> (r: &'static str)
        ensures
            r@ == self.name_spec(),
    {
        match self {
            JobName::SearchMissing => "search_missing",
            JobName::RefreshMetadata => "refresh_metadata",
            JobName::CheckNewEpisodes => "check_new_episodes",
            JobName::CheckNewReleases => "check_new_releases",
            JobName::CleanupCompleted => "cleanup_completed",
        }
    }

    /// The job a request names; a name of no job is not found.
    pub fn parse(name: &str) -> (r: Result<JobName, AppError>)
        ensures
            r matches Ok(j) ==> j.name_spec() == name@,
            r is Err ==> forall|j: JobName| j.name_spec() != name@,
            r matches Err(e) ==> (e matches AppError::NotFound(m) && m@ == "Job '"@ + name@
                + "' not found"@),
    {
        let v = chars_of(name);
        let s = v.as_slice();
        if chars_eq_str(s, "search_missing") {
            return Ok(JobName::SearchMissing);
        }
        if chars_eq_str(s, "refresh_metadata") {
            return Ok(JobName::RefreshMetadata);
        }
        if chars_eq_str(s, "check_new_episodes") {
            return Ok(JobName::CheckNewEpisodes);
        }
        if chars_eq_str(s, "check_new_releases") {
            return Ok(JobName::CheckNewReleases);
        }
        if chars_eq_str(s, "cleanup_completed") {
            return Ok(JobName::CleanupCompleted);
        }
        let mut m = chars_of("Job '");
        append_chars(&mut m, s);
        append_chars(&mut m, chars_of("' not found").as_slice());
        proof {
            assert forall|j: JobName| j.name_spec() != name@ by {
                match j {
                    JobName::SearchMissing => {},
                    JobName::RefreshMetadata => {},
                    JobName::CheckNewEpisodes => {},
                    JobName::CheckNewReleases => {},
                    JobName::CleanupCompleted => {},
                }
            }
        }
        Err(AppError::NotFound(string_of(m.as_slice())))
    }
}

/// The answer to triggering a job.
pub fn job_trigger_response(job: JobName) -> (r: JobTriggerResponse)
    ensures
        r.success,
        r.job@ == job.name_spec(),
        r.message@ == "Job '"@ + job.name_spec() + "' has been triggered"@,
{
    let mut m = chars_of("Job '");
    append_chars(&mut m, chars_of(job.as_str()).as_slice());
    append_chars(&mut m, chars_of("' has been triggered").as_slice());
    JobTriggerResponse { success: true, job: job.as_str().to_owned(), message: string_of(m.as_slice()) }
}

fn job_info(name: &str, description: &str) -> (r: JobInfo)
    ensures
        r.name@ == name@ && r.description@ == description@,
{
    JobInfo { name: name.to_owned(), description: description.to_owned() }
}

/// The background jobs, in the order they are listed.
pub fn list_jobs() -> (r: Vec<JobInfo>)
    ensures
        r@.len() == 5,
        r@[0].name@ == "search_missing"@ && r@[0].description@
            == "Search indexers for missing media and queue downloads"@,
        r@[1].name@ == "refresh_metadata"@ && r@[1].description@
            == "Refresh metadata from TMDB and MusicBrainz"@,
        r@[2].name@ == "check_new_episodes"@ && r@[2].description@
            == "Check for new episodes of continuing TV shows"@,
        r@[3].name@ == "check_new_releases"@ && r@[3].description@
            == "Check for new album releases from monitored artists"@,
        r@[4].name@ == "cleanup_completed"@ && r@[4].description@
            == "Clean up torrents that have met seeding requirements"@,
{
    let mut v: Vec<JobInfo> = Vec::new();
    v.push(job_info("search_missing", "Search indexers for missing media and queue downloads"));
    v.push(job_info("refresh_metadata", "Refresh metadata from TMDB and MusicBrainz"));
    v.push(job_info("check_new_episodes", "Check for new episodes of continuing TV shows"));
    v.push(job_info("check_new_releases", "Check for new album releases from monitored artists"));
    v.push(job_info("cleanup_completed", "Clean up torrents that have met seeding requirements"));
    v
}

// ---------------------------------------------------------------------------
// VPN
// ---------------------------------------------------------------------------

/// The network interfaces a VPN is looked for on, in order.
pub fn vpn_interfaces() -> (r: Vec<&'static str>)
    ensures
        r@.len() == 7,
        r@[0]@ == "tun0"@ && r@[1]@ == "wg0"@ && r@[2]@ == "wg1"@ && r@[3]@ == "utun0"@,
        r@[4]@ == "utun1"@ && r@[5]@ == "utun2"@ && r@[6]@ == "ppp0"@,
{
    vec!["tun0", "wg0", "wg1", "utun0", "utun1", "utun2", "ppp0"]
}

/// The VPN status: connected through the first interface that exists,
/// given whether each of `vpn_interfaces` exists.
pub fn vpn_status(names: &[&'static str], present: &[bool]) -> (r: VpnStatus)
    requires
        names@.len() == present@.len(),
    ensures
        r.connected <==> exists|i: int| 0 <= i < present@.len() && present@[i],
        r.connected ==> exists|i: int|
            0 <= i < present@.len() && present@[i] && (forall|j: int| 0 <= j < i ==> !present@[j])
                && (r.interface matches Some(n) && n@ == names@[i]@),
        !r.connected ==> r.interface is None,
{
    let mut i: usize = 0;
    while i < present.len()
        invariant
            names@.len() == present@.len(),
            i <= present@.len(),
            forall|j: int| 0 <= j < i ==> !present@[j],
        decreases present@.len() - i,
    {
        if present[i] {
            return VpnStatus { connected: true, interface: Some(names[i].to_owned()) };
        }
        i = i + 1;
    }
    VpnStatus { connected: false, interface: None }
}

} // verus!
