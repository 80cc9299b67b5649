//! The Movie Database (TMDB): the client's key and HTTP client, the URLs
//! it asks and links to, how it reads an answer's status, and the records
//! its answers hold that the library uses. Requests are made outside the
//! library.

use vstd::prelude::*;
use std::sync::Arc;
use crate::error::AppError;
use crate::text::{append_chars, chars_of, string_of, trim_whitespace, trim_ws};

verus! {

#[verifier::external_type_specification]
#[verifier::external_body]
pub struct ExHttpClient(reqwest::Client);

/// Root of the TMDB API.
pub const TMDB_BASE_URL: &'static str = "https://api.themoviedb.org/3";

/// Root of TMDB's image links.
pub const TMDB_IMAGE_BASE: &'static str = "https://image.tmdb.org/t/p";

/// How long a request may take, in seconds.
pub const REQUEST_TIMEOUT_SECS: u64 = 30;

#[verifier::external_type_specification]
#[verifier::external_body]
pub struct ExHttpError(reqwest::Error);

/// The total request timeout, in seconds, that an HTTP client was built
/// with (`ClientBuilder::timeout`).
pub uninterp spec fn client_timeout_secs(c: reqwest::Client) -> u64;

/// `reqwest::Client::builder().timeout(..).build()`: an HTTP client whose
/// requests time out after `timeout_secs` seconds, or the error when one
/// cannot be built. Whether it can depends on the machine (its TLS backend,
/// resolver and proxy settings), so success is not stated; the contract
/// claims only that a client handed back carries the timeout it was asked
/// for, as named by [`client_timeout_secs`].
#[verifier::external_body]
fn http_client_with_timeout(timeout_secs: u64) -> (r: Result<reqwest::Client, reqwest::Error>)
    ensures
        r matches Ok(c) ==> client_timeout_secs(c) == timeout_secs,
{
    reqwest::Client::builder().timeout(std::time::Duration::from_secs(timeout_secs)).build()
}

/// The text of a `reqwest::Error` (its `Display`). Nothing is stated of it:
/// it describes the failure.
#[verifier::external_body]
fn http_error_text(e: &reqwest::Error) -> (r: String) {
    e.to_string()
}

/// TMDB API client: the API key and the HTTP client that carries requests.
pub struct TmdbClient {
    client: reqwest::Client,
    api_key: String,
}

/// The error a client is refused with when its HTTP client cannot be built.
pub open spec fn client_build_error(msg: Seq<char>) -> Seq<char> {
    "Failed to create HTTP client: "@ + msg
}

/// Whether a message is the one a client is refused with when its HTTP
/// client cannot be built.
pub open spec fn is_client_build_error(m: Seq<char>) -> bool {
    exists|msg: Seq<char>| m == #[trigger] client_build_error(msg)
}

/// An image link: the image root, `/`, the size, then the image's path.
pub open spec fn image_url(path: Seq<char>, size: Seq<char>) -> Seq<char> {
    TMDB_IMAGE_BASE@ + "/"@ + size + path
}

impl TmdbClient {
    /// The API key the client sends.
    pub closed spec fn key(&self) -> Seq<char> {
        self.api_key@
    }

    /// Creates a client with the given API key, whose requests time out
    /// after [`REQUEST_TIMEOUT_SECS`] seconds. Blank keys are refused; an
    /// HTTP client that could not be built is reported with its error.
    pub fn new(api_key: String) -> (r: Result<Self, AppError>)
        ensures
            trim_ws(api_key@).len() == 0 ==> (r matches Err(AppError::Internal(m)) && m@
                == "TMDB API key cannot be empty"@),
            r matches Ok(c) ==> c.key() == api_key@,
            r matches Ok(c) ==> client_timeout_secs(c.http_spec()) == REQUEST_TIMEOUT_SECS,
            trim_ws(api_key@).len() > 0 ==> (r is Ok || (r matches Err(AppError::Internal(m))
                && is_client_build_error(m@))),
    {
        if check_api_key(api_key.as_str()).is_err() {
            return Err(AppError::Internal("TMDB API key cannot be empty".to_owned()));
        }
        let built = match http_client_with_timeout(REQUEST_TIMEOUT_SECS) {
            Ok(c) => Ok(c),
            Err(e) => Err(http_error_text(&e)),
        };
        let ghost outcome = built;
        let r = Self::from_http_client(api_key, built);
        assert(outcome is Err ==> is_client_build_error(client_build_error(outcome->Err_0@)));
        assert(r matches Ok(c) ==> outcome matches Ok(h) && c.http_spec() == h);
        r
    }

    /// The client made of an API key and the outcome of building its HTTP
    /// client: the client, or the build error reported as an internal
    /// error. The key is taken as it is.
    pub fn from_http_client(api_key: String, built: Result<reqwest::Client, String>) -> (r: Result<
        Self,
        AppError,
    >)
        ensures
            built matches Ok(c) ==> r matches Ok(t) && t.key() == api_key@ && t.http_spec() == c,
            built matches Err(msg) ==> r matches Err(AppError::Internal(m)) && m@
                == client_build_error(msg@),
    {
        match built {
            Ok(client) => Ok(TmdbClient { client, api_key }),
            Err(msg) => {
                let mut m = chars_of("Failed to create HTTP client: ");
                append_chars(&mut m, chars_of(msg.as_str()).as_slice());
                Err(AppError::Internal(string_of(m.as_slice())))
            },
        }
    }

    /// The HTTP client requests are sent with.
    pub closed spec fn http_spec(&self) -> reqwest::Client {
        self.client
    }

    /// Creates a client as [`TmdbClient::new`] does, shared behind an `Arc`.
    pub fn new_shared(api_key: String) -> (r: Result<Arc<Self>, AppError>)
        ensures
            trim_ws(api_key@).len() == 0 ==> (r matches Err(AppError::Internal(m)) && m@
                == "TMDB API key cannot be empty"@),
            r matches Ok(c) ==> c.key() == api_key@,
            r matches Ok(c) ==> client_timeout_secs(c.http_spec()) == REQUEST_TIMEOUT_SECS,
            trim_ws(api_key@).len() > 0 ==> (r is Ok || (r matches Err(AppError::Internal(m))
                && is_client_build_error(m@))),
    {
        match Self::new(api_key) {
            Ok(c) => Ok(Arc::new(c)),
            Err(e) => Err(e),
        }
    }

    /// The API key the client sends.
    pub fn api_key(&self) -> (r: &str)
        ensures
            r@ == self.key(),
    {
        self.api_key.as_str()
    }

    /// The HTTP client requests are sent with.
    pub fn http(&self) -> (r: &reqwest::Client)
        ensures
            *r == self.http_spec(),
    {
        &self.client
    }

    /// Link to a poster image of the given size (such as `w500`).
    pub fn poster_url(&self, path: &str, size: &str) -> (r: String)
        ensures
            r@ == image_url(path@, size@),
    {
        image_link(path, size)
    }

    /// Link to a backdrop image of the given size (such as `original`).
    pub fn backdrop_url(&self, path: &str, size: &str) -> (r: String)
        ensures
            r@ == image_url(path@, size@),
    {
        image_link(path, size)
    }
}

fn image_link(path: &str, size: &str) -> (r: String)
    ensures
        r@ == image_url(path@, size@),
{
    let mut r = chars_of(TMDB_IMAGE_BASE);
    append_chars(&mut r, chars_of("/").as_slice());
    append_chars(&mut r, chars_of(size).as_slice());
    append_chars(&mut r, chars_of(path).as_slice());
    string_of(r.as_slice())
}

/// The URL of an API path: the API root followed by the path.
pub fn api_url(path: &str) -> (r: String)
    ensures
        r@ == TMDB_BASE_URL@ + path@,
{
    let mut r = chars_of(TMDB_BASE_URL);
    append_chars(&mut r, chars_of(path).as_slice());
    string_of(r.as_slice())
}

/// The error an answer's HTTP status stands for, if any: a refused key, a
/// missing resource, the rate limit, or any other status outside 200–299
/// (reported with the status's text, such as `500 Internal Server Error`).
pub open spec fn status_error(path: Seq<char>, status: u16, status_text: Seq<char>) -> Option<
    (u16, Seq<char>),
> {
    if status == 401 {
        Some((500u16, "TMDB API key is invalid or missing"@))
    } else if status == 404 {
        Some((404u16, "TMDB resource not found: "@ + path))
    } else if status == 429 {
        Some((500u16, "TMDB rate limit exceeded, please try again later"@))
    } else if !(200 <= status <= 299) {
        Some((500u16, "TMDB API "@ + path + " returned error status: "@ + status_text))
    } else {
        None
    }
}

/// Reads the status of an answer to a request for `path`: the error it
/// stands for, or `None` when the answer is a success.
pub fn check_response_status(path: &str, status: u16, status_text: &str) -> (r: Option<AppError>)
    ensures
        match status_error(path@, status, status_text@) {
            None => r is None,
            Some((code, m)) => (code == 404 && (r matches Some(AppError::NotFound(t)) && t@ == m))
                || (code == 500 && (r matches Some(AppError::Internal(t)) && t@ == m)),
        },
{
    if status == 401 {
        Some(AppError::Internal("TMDB API key is invalid or missing".to_owned()))
    } else if status == 404 {
        let mut m = chars_of("TMDB resource not found: ");
        append_chars(&mut m, chars_of(path).as_slice());
        Some(AppError::NotFound(string_of(m.as_slice())))
    } else if status == 429 {
        Some(AppError::Internal("TMDB rate limit exceeded, please try again later".to_owned()))
    } else if status < 200 || status > 299 {
        let mut m = chars_of("TMDB API ");
        append_chars(&mut m, chars_of(path).as_slice());
        append_chars(&mut m, chars_of(" returned error status: ").as_slice());
        append_chars(&mut m, chars_of(status_text).as_slice());
        Some(AppError::Internal(string_of(m.as_slice())))
    } else {
        None
    }
}

/// The error a request for `path` that could not be sent is reported with.
pub fn request_failed(path: &str, err: &str) -> (r: AppError)
    ensures
        r matches AppError::Internal(m) && m@ == "TMDB request to "@ + path@ + " failed: "@ + err@,
{
    let mut m = chars_of("TMDB request to ");
    append_chars(&mut m, chars_of(path).as_slice());
    append_chars(&mut m, chars_of(" failed: ").as_slice());
    append_chars(&mut m, chars_of(err).as_slice());
    AppError::Internal(string_of(m.as_slice()))
}

/// The error an answer to a request for `path` that could not be read is
/// reported with.
pub fn parse_failed(path: &str, err: &str) -> (r: AppError)
    ensures
        r matches AppError::Internal(m) && m@ == "Failed to parse TMDB response from "@ + path@
            + ": "@ + err@,
{
    let mut m = chars_of("Failed to parse TMDB response from ");
    append_chars(&mut m, chars_of(path).as_slice());
    append_chars(&mut m, chars_of(": ").as_slice());
    append_chars(&mut m, chars_of(err).as_slice());
    AppError::Internal(string_of(m.as_slice()))
}

/// A page of search results.
pub struct TmdbSearchResponse<T> {
    pub results: Vec<T>,
    /// Current page number.
    pub page: i32,
    /// Total number of pages available.
    pub total_pages: i32,
    /// Total number of results across all pages.
    pub total_results: i32,
}

/// Season summary included in TV show details.
pub struct TmdbSeasonSummary {
    pub id: i32,
    pub name: String,
    pub overview: Option<String>,
    pub air_date: Option<String>,
    pub episode_count: i32,
    pub poster_path: Option<String>,
    pub season_number: i32,
}

/// A genre.
pub struct TmdbGenre {
    pub id: i32,
    pub name: String,
}

/// External IDs for cross-referencing with other databases.
pub struct TmdbExternalIds {
    pub imdb_id: Option<String>,
    pub tvdb_id: Option<i32>,
}

/// Checks the API key a client is created with: it must not be blank.
pub fn check_api_key(api_key: &str) -> (r: Result<(), AppError>)
    ensures
        r is Ok <==> trim_ws(api_key@).len() > 0,
        r matches Err(e) ==> (e matches AppError::Internal(m) && m@ == "TMDB API key cannot be empty"@),
{
    if trim_whitespace(chars_of(api_key).as_slice()).len() == 0 {
        Err(AppError::Internal("TMDB API key cannot be empty".to_owned()))
    } else {
        Ok(())
    }
}

/// How TMDB's statuses read: `Ended` and `Canceled` end a show, `In
/// Production` and `Planned` mark it upcoming, and every other status
/// (`Returning Series` among them), or none, leaves it continuing.
pub proof fn lemma_tmdb_statuses(s: Seq<char>)
    ensures
        crate::api::tv::tmdb_status_of(Some(s)) == crate::models::ShowStatus::Ended <==> s == "Ended"@,
        crate::api::tv::tmdb_status_of(Some(s)) == crate::models::ShowStatus::Canceled <==> s == "Canceled"@,
        crate::api::tv::tmdb_status_of(Some(s)) == crate::models::ShowStatus::Upcoming <==> (s == "In Production"@ || s
            == "Planned"@),
        crate::api::tv::tmdb_status_of(Some(s)) == crate::models::ShowStatus::Continuing <==> !(s == "Ended"@ || s == "Canceled"@
            || s == "In Production"@ || s == "Planned"@),
        crate::api::tv::tmdb_status_of(None) == crate::models::ShowStatus::Continuing,
{
    reveal_strlit("Returning Series");
    assert("Returning Series"@ =~= seq!['R', 'e', 't', 'u', 'r', 'n', 'i', 'n', 'g', ' ', 'S', 'e', 'r', 'i', 'e', 's']);
    reveal_strlit("Ended");
    assert("Ended"@ =~= seq!['E', 'n', 'd', 'e', 'd']);
    reveal_strlit("Canceled");
    assert("Canceled"@ =~= seq!['C', 'a', 'n', 'c', 'e', 'l', 'e', 'd']);
    reveal_strlit("In Production");
    assert("In Production"@ =~= seq!['I', 'n', ' ', 'P', 'r', 'o', 'd', 'u', 'c', 't', 'i', 'o', 'n']);
    reveal_strlit("Planned");
    assert("Planned"@ =~= seq!['P', 'l', 'a', 'n', 'n', 'e', 'd']);
}

} // verus!
