//! Authentication: hashing and checking passwords with Argon2, the claims
//! a token carries, how long it is valid, how a request presents it and
//! who may administer users. Signing tokens happens outside the library.

use vstd::prelude::*;
use argon2::password_hash::rand_core::OsRng;
use argon2::password_hash::{PasswordHash, PasswordHasher, PasswordVerifier, SaltString};
use argon2::Argon2;
use crate::error::AppError;
use crate::text::{append_chars, chars_eq_str, chars_of, starts_with_seq, string_of};

verus! {

/// What checking a password's UTF-8 bytes against a stored PHC hash
/// string with Argon2 (default parameters) gives: `None` when the string
/// does not parse as a PHC hash, else whether the password matches it.
pub uninterp spec fn argon2_verdict(password: Seq<u8>, phc: Seq<char>) -> Option<bool>;

/// `PasswordHash::new` on the stored string, then `Argon2::verify_password`
/// with the password's bytes. The contract claims that the string fails to
/// parse (the error's text handed back) exactly when the verdict named by
/// [`argon2_verdict`] is `None`, and otherwise gives that verdict.
#[verifier::external_body]
fn argon2_verify(password: &str, phc: &str) -> (r: Result<bool, String>)
    ensures
        r is Err <==> argon2_verdict(vstd::utf8::encode_utf8(password@), phc@) is None,
        r matches Ok(b) ==> argon2_verdict(vstd::utf8::encode_utf8(password@), phc@) == Some(b),
{
    match PasswordHash::new(phc) {
        Ok(h) => Ok(Argon2::default().verify_password(password.as_bytes(), &h).is_ok()),
        Err(e) => Err(e.to_string()),
    }
}

/// `Argon2::hash_password` with a fresh salt from the operating system,
/// as a PHC string. The salt is random, so the result gets no name; the
/// contract claims only what holds of every outcome: a hash handed back
/// parses and verifies against the same password (the error's text is
/// handed back otherwise).
#[verifier::external_body]
fn argon2_hash_fresh_salt(password: &str) -> (r: Result<String, String>)
    ensures
        r matches Ok(h) ==> argon2_verdict(vstd::utf8::encode_utf8(password@), h@) == Some(true),
{
    let salt = SaltString::generate(&mut OsRng);
    match Argon2::default().hash_password(password.as_bytes(), &salt) {
        Ok(h) => Ok(h.to_string()),
        Err(e) => Err(e.to_string()),
    }
}

/// Hashes a password with Argon2 and a fresh salt, as a PHC string; the
/// hash verifies against the password. A failure of the hasher is an
/// internal error `Password hashing failed: ` followed by its reason.
pub fn hash_password(password: &str) -> (r: Result<String, AppError>)
    ensures
        r matches Ok(h) ==> argon2_verdict(vstd::utf8::encode_utf8(password@), h@) == Some(true),
        r matches Err(e) ==> e matches AppError::Internal(m) && starts_with_seq(
            m@,
            "Password hashing failed: "@,
        ),
{
    match argon2_hash_fresh_salt(password) {
        Ok(h) => Ok(h),
        Err(reason) => {
            let mut m = chars_of("Password hashing failed: ");
            let ghost head = m@;
            append_chars(&mut m, chars_of(reason.as_str()).as_slice());
            assert(m@.take(head.len() as int) =~= head);
            Err(AppError::Internal(string_of(m.as_slice())))
        },
    }
}

/// Whether a password matches a stored hash. A stored string that is not a
/// PHC hash is an internal error `Invalid password hash format: ` followed
/// by the parser's reason.
pub fn verify_password(password: &str, hash: &str) -> (r: Result<bool, AppError>)
    ensures
        argon2_verdict(vstd::utf8::encode_utf8(password@), hash@) matches Some(b) ==> r == Ok::<
            bool,
            AppError,
        >(b),
        argon2_verdict(vstd::utf8::encode_utf8(password@), hash@) is None ==> (r matches Err(
            AppError::Internal(m),
        ) && starts_with_seq(m@, "Invalid password hash format: "@)),
{
    match argon2_verify(password, hash) {
        Ok(b) => Ok(b),
        Err(reason) => {
            let mut m = chars_of("Invalid password hash format: ");
            let ghost head = m@;
            append_chars(&mut m, chars_of(reason.as_str()).as_slice());
            assert(m@.take(head.len() as int) =~= head);
            Err(AppError::Internal(string_of(m.as_slice())))
        },
    }
}

/// The claims of a session token.
pub struct Claims {
    /// Subject (user ID).
    pub sub: i64,
    /// User role (admin or user).
    pub role: String,
    /// Expiration timestamp (Unix time).
    pub exp: usize,
    /// Issued at timestamp (Unix time).
    pub iat: usize,
}

/// How long a token is valid: 24 hours, in seconds.
pub const TOKEN_EXPIRATION_SECS: usize = 86400;

/// The claims of a token issued at `now` (Unix seconds) for a user: it
/// expires 24 hours later.
pub fn token_claims(user_id: i64, role: &str, now: usize) -> (r: Claims)
    requires
        now + TOKEN_EXPIRATION_SECS <= usize::MAX,
    ensures
        r.sub == user_id && r.role@ == role@,
        r.iat == now && r.exp == now + TOKEN_EXPIRATION_SECS,
{
    Claims { sub: user_id, role: role.to_owned(), exp: now + TOKEN_EXPIRATION_SECS, iat: now }
}

/// The token of an `Authorization` header of the form `Bearer <token>`.
pub open spec fn bearer_of(header: Seq<char>) -> Option<Seq<char>> {
    if starts_with_seq(header, "Bearer "@) {
        Some(header.skip(7))
    } else {
        None
    }
}

/// The token a request presents: the text after `Bearer ` in its
/// `Authorization` header. A request without the header, or with another
/// kind of header, is unauthorized.
pub fn bearer_token(header: Option<&str>) -> (r: Result<String, AppError>)
    ensures
        match header {
            Some(h) => match bearer_of(h@) {
                Some(t) => r matches Ok(s) && s@ == t,
                None => r matches Err(AppError::Unauthorized),
            },
            None => r matches Err(AppError::Unauthorized),
        },
{
    match header {
        None => Err(AppError::Unauthorized),
        Some(h) => {
            let v = chars_of(h);
            proof {
                reveal_strlit("Bearer ");
            }
            let prefix = chars_of("Bearer ");
            assert(prefix@.len() == 7);
            if v.len() < 7 {
                return Err(AppError::Unauthorized);
            }
            let mut i: usize = 0;
            while i < 7
                invariant
                    i <= 7,
                    v@ == h@,
                    header == Some(h),
                    v@.len() >= 7,
                    prefix@ == "Bearer "@,
                    prefix@.len() == 7,
                    forall|j: int| 0 <= j < i ==> v@[j] == prefix@[j],
                decreases 7 - i,
            {
                if v[i] != prefix[i] {
                    assert(!starts_with_seq(v@, "Bearer "@)) by {
                        assert(v@.take(7)[i as int] != prefix@[i as int]);
                    }
                    return Err(AppError::Unauthorized);
                }
                i += 1;
            }
            assert(v@.take(7) =~= "Bearer "@);
            let mut t: Vec<char> = Vec::new();
            let mut k: usize = 7;
            while k < v.len()
                invariant
                    7 <= k <= v.len(),
                    t@ == v@.subrange(7, k as int),
                decreases v.len() - k,
            {
                t.push(v[k]);
                k += 1;
                assert(t@ =~= v@.subrange(7, k as int));
            }
            assert(v@.subrange(7, v@.len() as int) =~= v@.skip(7));
            Ok(string_of(t.as_slice()))
        },
    }
}

/// Only administrators may manage users: a request by any other role is
/// forbidden.
pub fn require_admin_role(claims: &Claims) -> (r: Result<(), AppError>)
    ensures
        claims.role@ == "admin"@ ==> r is Ok,
        claims.role@ != "admin"@ ==> r matches Err(AppError::Forbidden),
{
    if chars_eq_str(chars_of(claims.role.as_str()).as_slice(), "admin") {
        Ok(())
    } else {
        Err(AppError::Forbidden)
    }
}

} // verus!
