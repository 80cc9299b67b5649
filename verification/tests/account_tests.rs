use lcars::api::auth::{check_login_request, LoginRequest};
use lcars::api::health_response;
use lcars::api::users::{
    check_new_user, check_password, check_user_update, role_from_db, CreateUserRequest,
    UpdateUserRequest,
};
use lcars::auth::{bearer_token, require_admin_role, token_claims, Claims, TOKEN_EXPIRATION_SECS};
use lcars::error::AppError;
use lcars::models::UserRole;

fn bad_request(r: Result<(), AppError>) -> String {
    match r {
        Err(AppError::BadRequest(m)) => m,
        _ => panic!("expected a bad request"),
    }
}

#[test]
fn health_answer_names_the_version() {
    let r = health_response("0.1.0");
    assert_eq!(r.message, "LCARS Backend is running");
    assert_eq!(r.version, "0.1.0");
}

#[test]
fn login_needs_name_and_password() {
    let ok = LoginRequest { username: "admin".to_string(), password: "secret".to_string() };
    assert!(check_login_request(&ok).is_ok());
    let no_pass = LoginRequest { username: "admin".to_string(), password: String::new() };
    assert_eq!(bad_request(check_login_request(&no_pass)), "Username and password are required");
    let no_name = LoginRequest { username: String::new(), password: "x".to_string() };
    assert_eq!(bad_request(check_login_request(&no_name)), "Username and password are required");
}

fn new_user(name: &str, password: &str) -> CreateUserRequest {
    CreateUserRequest { username: name.to_string(), password: password.to_string(), role: UserRole::User }
}

#[test]
fn new_users_are_checked_in_order() {
    assert!(check_new_user(&new_user("bob", "password1"), false).is_ok());
    assert_eq!(bad_request(check_new_user(&new_user("", "short"), true)), "Username is required");
    assert_eq!(
        bad_request(check_new_user(&new_user("bob", "short"), true)),
        "Password must be at least 8 characters"
    );
    assert_eq!(
        bad_request(check_new_user(&new_user("bob", "password1"), true)),
        "Username already exists"
    );
}

#[test]
fn password_length_counts_bytes() {
    assert!(check_password("12345678").is_ok());
    assert!(check_password("1234567").is_err());
    // four two-byte characters make eight bytes
    assert!(check_password("éééé").is_ok());
}

fn update(name: Option<&str>, password: Option<&str>, role: Option<UserRole>) -> UpdateUserRequest {
    UpdateUserRequest {
        username: name.map(|s| s.to_string()),
        password: password.map(|s| s.to_string()),
        role,
    }
}

#[test]
fn user_updates_are_checked_in_order() {
    assert_eq!(
        bad_request(check_user_update(&update(Some(""), Some("x"), None), true)),
        "Username cannot be empty"
    );
    assert_eq!(
        bad_request(check_user_update(&update(Some("carol"), Some("x"), None), true)),
        "Username already exists"
    );
    assert_eq!(
        bad_request(check_user_update(&update(Some("carol"), Some("x"), None), false)),
        "Password must be at least 8 characters"
    );
    assert_eq!(bad_request(check_user_update(&update(None, None, None), true)), "No fields to update");
    assert!(check_user_update(&update(None, None, Some(UserRole::Admin)), true).is_ok());
    assert!(check_user_update(&update(Some("carol"), None, None), false).is_ok());
}

#[test]
fn stored_roles_read_back() {
    assert_eq!(role_from_db("admin"), UserRole::Admin);
    assert_eq!(role_from_db("user"), UserRole::User);
    assert_eq!(role_from_db("Admin"), UserRole::User);
    assert_eq!(UserRole::parse("admin"), Some(UserRole::Admin));
    assert_eq!(UserRole::parse("root"), None);
    assert_eq!(UserRole::Admin.as_str(), "admin");
}

#[test]
fn bearer_header_gives_the_token() {
    assert_eq!(bearer_token(Some("Bearer abc.def")).ok(), Some("abc.def".to_string()));
    assert_eq!(bearer_token(Some("Bearer ")).ok(), Some(String::new()));
    assert!(matches!(bearer_token(Some("Basic abc")), Err(lcars::error::AppError::Unauthorized)));
    assert!(matches!(bearer_token(Some("Bear")), Err(lcars::error::AppError::Unauthorized)));
    assert!(matches!(bearer_token(None), Err(lcars::error::AppError::Unauthorized)));
}

#[test]
fn only_admins_manage_users() {
    let admin = token_claims(1, "admin", 1000);
    assert!(require_admin_role(&admin).is_ok());
    let user = Claims { sub: 2, role: "user".to_string(), exp: 0, iat: 0 };
    assert!(matches!(require_admin_role(&user), Err(AppError::Forbidden)));
}

#[test]
fn tokens_last_a_day() {
    let c = token_claims(7, "user", 1_700_000_000);
    assert_eq!(c.sub, 7);
    assert_eq!(c.role, "user");
    assert_eq!(c.iat, 1_700_000_000);
    assert_eq!(c.exp, 1_700_000_000 + 86_400);
    assert_eq!(TOKEN_EXPIRATION_SECS, 86_400);
}

#[test]
fn test_password_hash_and_verify() {
    let password = "my-secure-password";
    let hash = lcars::auth::hash_password(password).unwrap();
    assert!(hash.starts_with("$argon2"));
    assert!(lcars::auth::verify_password(password, &hash).unwrap());
    assert!(!lcars::auth::verify_password("wrong-password", &hash).unwrap());
}

#[test]
fn test_different_passwords_different_hashes() {
    let hash1 = lcars::auth::hash_password("password1").unwrap();
    let hash2 = lcars::auth::hash_password("password2").unwrap();
    let hash3 = lcars::auth::hash_password("password1").unwrap();
    assert_ne!(hash1, hash2);
    assert_ne!(hash1, hash3);
}

#[test]
fn stored_text_that_is_no_hash_is_an_internal_error() {
    match lcars::auth::verify_password("pw", "not a hash") {
        Err(lcars::error::AppError::Internal(m)) => {
            assert!(m.starts_with("Invalid password hash format: "))
        }
        _ => panic!("a malformed hash must be refused"),
    }
}

#[test]
fn login_signs_in_only_a_known_user_with_the_right_password() {
    let hash = lcars::auth::hash_password("secret-pw").unwrap();
    let stored = |h: &str| lcars::api::auth::StoredUser {
        id: 7,
        username: "ada".to_string(),
        password_hash: h.to_string(),
        role: "admin".to_string(),
    };
    let info = lcars::api::auth::authenticate("secret-pw", Some(stored(&hash))).unwrap();
    assert_eq!(info.id, 7);
    assert_eq!(info.username, "ada");
    assert!(info.role == lcars::models::UserRole::Admin);
    assert!(matches!(lcars::api::auth::authenticate("nope", Some(stored(&hash))), Err(lcars::error::AppError::Unauthorized)));
    assert!(matches!(lcars::api::auth::authenticate("secret-pw", None), Err(lcars::error::AppError::Unauthorized)));
    match lcars::api::auth::authenticate("secret-pw", Some(stored("garbage"))) {
        Err(lcars::error::AppError::Internal(m)) => assert!(m.starts_with("Invalid password hash format: ")),
        _ => panic!("a stored text that is no hash must be an internal error"),
    }
}
