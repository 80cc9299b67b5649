//! The authentication endpoints' types, the check of a login request and
//! the decision who a login signs in.

use vstd::prelude::*;
use crate::api::users::role_from_db;
use crate::auth::{argon2_verdict, verify_password};
use crate::error::AppError;
use crate::models::UserRole;
use crate::text::starts_with_seq;

verus! {

/// Login request body.
pub struct LoginRequest {
    pub username: String,
    pub password: String,
}

/// Login response with JWT token.
pub struct LoginResponse {
    pub token: String,
    pub user: UserInfo,
}

/// User information returned in responses (without password hash).
pub struct UserInfo {
    pub id: i64,
    pub username: String,
    pub role: UserRole,
}

/// Generic success response.
pub struct SuccessResponse {
    pub message: String,
}

/// Checks that a login request has a username and a password.
pub fn check_login_request(body: &LoginRequest) -> (r: Result<(), AppError>)
    ensures
        r is Ok <==> body.username@.len() > 0 && body.password@.len() > 0,
        r matches Err(e) ==> (e matches AppError::BadRequest(m) && m@
            == "Username and password are required"@),
{
    if body.username.as_str().is_empty() || body.password.as_str().is_empty() {
        Err(AppError::BadRequest("Username and password are required".to_owned()))
    } else {
        Ok(())
    }
}

/// A valid Argon2 hash that no password matches. A login for an unknown
/// user is checked against it, so that it takes as long to refuse as a
/// wrong password.
pub const DUMMY_HASH: &'static str = "$argon2id$v=19$m=19456,t=2,p=1$dGltaW5nYXR0YWNr$AAAAAAAAAAAAAAAAAAAAAAAAAAAAAAAAAAAAAAAAAAA";

/// The user a login names, as stored.
pub struct StoredUser {
    pub id: i64,
    pub username: String,
    pub password_hash: String,
    pub role: String,
}

/// The role a stored role text gives.
pub open spec fn role_of(text: Seq<char>) -> UserRole {
    if text == "admin"@ {
        UserRole::Admin
    } else {
        UserRole::User
    }
}

/// Who a login signs in, given the user its name was looked up to: an
/// unknown user, or a password that does not match the stored hash, is
/// refused as unauthorized alike (an unknown user's password is still
/// checked against [`DUMMY_HASH`]); a stored hash that is no hash is an
/// internal error; else the user's id, name and role.
pub fn authenticate(password: &str, found: Option<StoredUser>) -> (r: Result<UserInfo, AppError>)
    ensures
        found is None ==> r matches Err(AppError::Unauthorized),
        found matches Some(u) ==> match argon2_verdict(
            vstd::utf8::encode_utf8(password@),
            u.password_hash@,
        ) {
            Some(true) => r matches Ok(info) && info.id == u.id && info.username@ == u.username@
                && info.role == role_of(u.role@),
            Some(false) => r matches Err(AppError::Unauthorized),
            None => r matches Err(AppError::Internal(m)) && starts_with_seq(
                m@,
                "Invalid password hash format: "@,
            ),
        },
{
    match found {
        None => {
            let _ = verify_password(password, DUMMY_HASH);
            Err(AppError::Unauthorized)
        },
        Some(u) => {
            match verify_password(password, u.password_hash.as_str()) {
                Ok(true) => {
                    let role = role_from_db(u.role.as_str());
                    Ok(UserInfo { id: u.id, username: u.username, role })
                },
                Ok(false) => Err(AppError::Unauthorized),
                Err(e) => Err(e),
            }
        },
    }
}

} // verus!
