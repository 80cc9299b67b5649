//! The request and response types of the HTTP API, and the computations
//! its handlers make between reading the store and answering.

pub mod soulseek;
pub mod music;
pub mod tv;
pub mod system;
pub mod auth;
pub mod users;
pub mod downloads;
pub mod search;
pub mod ws;

use vstd::prelude::*;

verus! {

/// The answer of the health check.
pub struct ApiResponse {
    pub message: String,
    pub version: String,
}

/// The health check's answer for a version.
pub fn health_response(version: &str) -> (r: ApiResponse)
    ensures
        r.message@ == "LCARS Backend is running"@,
        r.version@ == version@,
{
    ApiResponse { message: "LCARS Backend is running".to_owned(), version: version.to_owned() }
}

} // verus!
