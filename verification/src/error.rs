//! Application errors and the HTTP answer each one is given.
//!
//! Errors caused by the client (a missing resource, a bad request) tell the
//! client what went wrong; errors inside the server answer with a status and
//! an error code only, never with their details.

use vstd::prelude::*;
use crate::text::{append_chars, chars_of, string_of};

verus! {

/// Application-wide error type.
#[derive(Debug)]
pub enum AppError {
    /// Database-related errors (the driver's message).
    Database(String),
    /// SQLite-specific errors (the driver's message).
    Sqlite(String),
    /// Configuration loading/parsing errors.
    Config(String),
    /// Resource not found.
    NotFound(String),
    /// Authentication required.
    Unauthorized,
    /// Insufficient permissions.
    Forbidden,
    /// Invalid request data.
    BadRequest(String),
    /// Internal server error.
    Internal(String),
}

/// The HTTP status that answers an error.
pub open spec fn status_of(e: AppError) -> u16 {
    match e {
        AppError::NotFound(_) => 404,
        AppError::Unauthorized => 401,
        AppError::Forbidden => 403,
        AppError::BadRequest(_) => 400,
        _ => 500,
    }
}

/// The error code in the JSON body that answers an error.
pub open spec fn code_of(e: AppError) -> Seq<char> {
    match e {
        AppError::Database(_) => "database_error"@,
        AppError::Sqlite(_) => "database_error"@,
        AppError::Config(_) => "configuration_error"@,
        AppError::NotFound(_) => "not_found"@,
        AppError::Unauthorized => "unauthorized"@,
        AppError::Forbidden => "forbidden"@,
        AppError::BadRequest(_) => "bad_request"@,
        AppError::Internal(_) => "internal_error"@,
    }
}

/// The message shown to the client: the resource of a `NotFound` and the
/// reason of a `BadRequest`; nothing for any other error.
pub open spec fn message_of(e: AppError) -> Option<Seq<char>> {
    match e {
        AppError::NotFound(m) => Some(m@),
        AppError::BadRequest(m) => Some(m@),
        _ => None,
    }
}

/// The answer to an error: its HTTP status and the JSON body's fields.
pub struct ErrorReply {
    pub status: u16,
    pub error: String,
    pub message: Option<String>,
}

impl ErrorReply {
    /// The HTTP status of the answer.
    pub fn status(&self) -> (r: u16)
        ensures
            r == self.status,
    {
        self.status
    }
}

/// What an answer to `e` holds.
pub open spec fn reply_of(r: ErrorReply, e: AppError) -> bool {
    &&& r.status == status_of(e)
    &&& r.error@ == code_of(e)
    &&& r.message.deep_view() == message_of(e)
}

impl AppError {
    /// The answer the server gives for this error.
    pub fn into_response(self) -> (r: ErrorReply)
        ensures
            reply_of(r, self),
    {
        match self {
            AppError::Database(_) => ErrorReply {
                status: 500,
                error: "database_error".to_owned(),
                message: None,
            },
            AppError::Sqlite(_) => ErrorReply {
                status: 500,
                error: "database_error".to_owned(),
                message: None,
            },
            AppError::Config(_) => ErrorReply {
                status: 500,
                error: "configuration_error".to_owned(),
                message: None,
            },
            AppError::NotFound(resource) => ErrorReply {
                status: 404,
                error: "not_found".to_owned(),
                message: Some(resource),
            },
            AppError::Unauthorized => ErrorReply {
                status: 401,
                error: "unauthorized".to_owned(),
                message: None,
            },
            AppError::Forbidden => ErrorReply {
                status: 403,
                error: "forbidden".to_owned(),
                message: None,
            },
            AppError::BadRequest(msg) => ErrorReply {
                status: 400,
                error: "bad_request".to_owned(),
                message: Some(msg),
            },
            AppError::Internal(_) => ErrorReply {
                status: 500,
                error: "internal_error".to_owned(),
                message: None,
            },
        }
    }
}

/// The text of an error, as the server's logs show it: a prefix naming
/// the kind of error, then its detail.
pub open spec fn error_text(e: AppError) -> Seq<char> {
    match e {
        AppError::Database(m) => "Database error: "@ + m@,
        AppError::Sqlite(m) => "Database error: "@ + m@,
        AppError::Config(m) => "Configuration error: "@ + m@,
        AppError::NotFound(m) => "Not found: "@ + m@,
        AppError::Unauthorized => "Unauthorized"@,
        AppError::Forbidden => "Forbidden"@,
        AppError::BadRequest(m) => "Bad request: "@ + m@,
        AppError::Internal(m) => "Internal error: "@ + m@,
    }
}

impl AppError {
    /// The text of the error (its display form).
    pub fn text(&self) -> (r: String)
        ensures
            r@ == error_text(*self),
    {
        let (prefix, detail): (&str, Option<&String>) = match self {
            AppError::Database(m) => ("Database error: ", Some(m)),
            AppError::Sqlite(m) => ("Database error: ", Some(m)),
            AppError::Config(m) => ("Configuration error: ", Some(m)),
            AppError::NotFound(m) => ("Not found: ", Some(m)),
            AppError::Unauthorized => ("Unauthorized", None),
            AppError::Forbidden => ("Forbidden", None),
            AppError::BadRequest(m) => ("Bad request: ", Some(m)),
            AppError::Internal(m) => ("Internal error: ", Some(m)),
        };
        let mut v = chars_of(prefix);
        if let Some(m) = detail {
            append_chars(&mut v, chars_of(m.as_str()).as_slice());
        }
        string_of(v.as_slice())
    }
}

/// A server-side failure is never explained to the client: every answer
/// with status 500 carries no message, and only client errors (4xx) carry
/// one.
pub proof fn lemma_server_errors_stay_private(e: AppError, r: ErrorReply)
    requires
        reply_of(r, e),
    ensures
        r.status == 500 ==> r.message is None,
        r.message is Some ==> 400 <= r.status < 500,
        r.status == 500 <==> !(e is NotFound || e is Unauthorized || e is Forbidden
            || e is BadRequest),
{
}

/// Errors the client caused answer a 4xx status, each with its own code:
/// not found 404, unauthorized 401, forbidden 403, bad request 400; the
/// server's own failures (database, configuration, internal) answer 500,
/// and exactly those carry a server error code.
pub proof fn lemma_status_follows_blame(e: AppError)
    ensures
        (e is NotFound) <==> status_of(e) == 404,
        (e is Unauthorized) <==> status_of(e) == 401,
        (e is Forbidden) <==> status_of(e) == 403,
        (e is BadRequest) <==> status_of(e) == 400,
        status_of(e) == 500 <==> (code_of(e) == "database_error"@ || code_of(e)
            == "configuration_error"@ || code_of(e) == "internal_error"@),
        status_of(e) == 500 <==> (e is Database || e is Sqlite || e is Config || e is Internal),
{
    reveal_strlit("database_error");
    assert("database_error"@ =~= seq!['d', 'a', 't', 'a', 'b', 'a', 's', 'e', '_', 'e', 'r', 'r', 'o', 'r']);
    reveal_strlit("configuration_error");
    assert("configuration_error"@ =~= seq!['c', 'o', 'n', 'f', 'i', 'g', 'u', 'r', 'a', 't', 'i', 'o', 'n', '_', 'e', 'r', 'r', 'o', 'r']);
    reveal_strlit("not_found");
    assert("not_found"@ =~= seq!['n', 'o', 't', '_', 'f', 'o', 'u', 'n', 'd']);
    reveal_strlit("unauthorized");
    assert("unauthorized"@ =~= seq!['u', 'n', 'a', 'u', 't', 'h', 'o', 'r', 'i', 'z', 'e', 'd']);
    reveal_strlit("forbidden");
    assert("forbidden"@ =~= seq!['f', 'o', 'r', 'b', 'i', 'd', 'd', 'e', 'n']);
    reveal_strlit("bad_request");
    assert("bad_request"@ =~= seq!['b', 'a', 'd', '_', 'r', 'e', 'q', 'u', 'e', 's', 't']);
    reveal_strlit("internal_error");
    assert("internal_error"@ =~= seq!['i', 'n', 't', 'e', 'r', 'n', 'a', 'l', '_', 'e', 'r', 'r', 'o', 'r']);
}

} // verus!
