//! The user administration endpoints' types and checks.

use vstd::prelude::*;
use crate::error::AppError;
use crate::models::UserRole;
use crate::text::chars_eq_str;
use crate::text::chars_of;

verus! {

/// Create user request body.
pub struct CreateUserRequest {
    pub username: String,
    pub password: String,
    pub role: UserRole,
}

/// Update user request body.
pub struct UpdateUserRequest {
    pub username: Option<String>,
    pub password: Option<String>,
    pub role: Option<UserRole>,
}

/// User response with timestamps.
pub struct UserResponse {
    pub id: i64,
    pub username: String,
    pub role: UserRole,
    pub created_at: String,
    pub updated_at: String,
}

/// Passwords have at least 8 bytes.
pub open spec fn password_ok(p: Seq<char>) -> bool {
    vstd::utf8::encode_utf8(p).len() >= 8
}

/// Checks a new user, given whether its name is already taken: a name is
/// required, a password of at least 8 bytes, and a name nobody has
/// (checked in that order).
pub fn check_new_user(body: &CreateUserRequest, name_taken: bool) -> (r: Result<(), AppError>)
    ensures
        body.username@.len() == 0 ==> (r matches Err(AppError::BadRequest(m)) && m@
            == "Username is required"@),
        body.username@.len() > 0 && !password_ok(body.password@) ==> (r matches Err(
            AppError::BadRequest(m),
        ) && m@ == "Password must be at least 8 characters"@),
        body.username@.len() > 0 && password_ok(body.password@) && name_taken ==> (r matches Err(
            AppError::BadRequest(m),
        ) && m@ == "Username already exists"@),
        r is Ok <==> body.username@.len() > 0 && password_ok(body.password@) && !name_taken,
{
    if body.username.as_str().is_empty() {
        return Err(AppError::BadRequest("Username is required".to_owned()));
    }
    match check_password(body.password.as_str()) {
        Err(e) => Err(e),
        Ok(()) => if name_taken {
            Err(AppError::BadRequest("Username already exists".to_owned()))
        } else {
            Ok(())
        },
    }
}

/// Checks a password's length: at least 8 bytes.
pub fn check_password(password: &str) -> (r: Result<(), AppError>)
    ensures
        r is Ok <==> password_ok(password@),
        r matches Err(e) ==> (e matches AppError::BadRequest(m) && m@
            == "Password must be at least 8 characters"@),
{
    if password.as_bytes().len() < 8 {
        Err(AppError::BadRequest("Password must be at least 8 characters".to_owned()))
    } else {
        Ok(())
    }
}

/// The update gives an empty new name.
pub open spec fn empty_new_name(body: UpdateUserRequest) -> bool {
    match body.username {
        Some(u) => u@.len() == 0,
        None => false,
    }
}

/// The update gives a new password that is too short.
pub open spec fn short_new_password(body: UpdateUserRequest) -> bool {
    match body.password {
        Some(p) => !password_ok(p@),
        None => false,
    }
}

/// The update changes nothing.
pub open spec fn empty_update(body: UpdateUserRequest) -> bool {
    body.username is None && body.password is None && body.role is None
}

/// Checks a user update, given whether its new name is already taken by
/// another user (which matters only when a new name is given): a new name
/// must not be empty and must be free, a new password must be long enough,
/// and something must be updated (checked in that order).
pub fn check_user_update(body: &UpdateUserRequest, name_taken: bool) -> (r: Result<(), AppError>)
    ensures
        empty_new_name(*body) ==> (r matches Err(AppError::BadRequest(m)) && m@
            == "Username cannot be empty"@),
        !empty_new_name(*body) && body.username is Some && name_taken ==> (r matches Err(
            AppError::BadRequest(m),
        ) && m@ == "Username already exists"@),
        !empty_new_name(*body) && !(body.username is Some && name_taken) && short_new_password(*body)
            ==> (r matches Err(AppError::BadRequest(m)) && m@
            == "Password must be at least 8 characters"@),
        !empty_new_name(*body) && !(body.username is Some && name_taken) && !short_new_password(
            *body,
        ) && empty_update(*body) ==> (r matches Err(AppError::BadRequest(m)) && m@
            == "No fields to update"@),
        r is Ok <==> !empty_new_name(*body) && !(body.username is Some && name_taken)
            && !short_new_password(*body) && !empty_update(*body),
{
    if let Some(u) = &body.username {
        if u.as_str().is_empty() {
            return Err(AppError::BadRequest("Username cannot be empty".to_owned()));
        }
        if name_taken {
            return Err(AppError::BadRequest("Username already exists".to_owned()));
        }
    }
    if let Some(p) = &body.password {
        if p.as_str().as_bytes().len() < 8 {
            return Err(AppError::BadRequest("Password must be at least 8 characters".to_owned()));
        }
    }
    if body.username.is_none() && body.password.is_none() && body.role.is_none() {
        return Err(AppError::BadRequest("No fields to update".to_owned()));
    }
    Ok(())
}

/// The role a stored role text gives: `admin` is an administrator, any
/// other text a plain user.
pub fn role_from_db(s: &str) -> (r: UserRole)
    ensures
        s@ == "admin"@ ==> r == UserRole::Admin,
        s@ != "admin"@ ==> r == UserRole::User,
{
    if chars_eq_str(chars_of(s).as_slice(), "admin") {
        UserRole::Admin
    } else {
        UserRole::User
    }
}

} // verus!
