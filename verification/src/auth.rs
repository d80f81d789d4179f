//! Signup and login decisions: hashing a new password, checking submitted
//! credentials against a stored hash, and the role gate mutating handlers
//! consult. The hashing primitive is external; what the service decides
//! about its outcomes is verified here.

use vstd::prelude::*;
use crate::errors::ApplicationError;
use crate::users::{UserCreateRequest, ADMIN_ROLE_ID};

verus! {

/// What a login submits.
#[derive(Debug)]
pub struct LoginRequest {
    pub email: String,
    pub password: String,
}

/// What login and signup answer with.
#[derive(Debug)]
pub struct LoginResponse {
    pub access_token: String,
}

/// Whether a piece of text parses as a password-hash record, as the parsing
/// primitive decides it: a function of the text alone.
pub uninterp spec fn phc_parses(hash: Seq<char>) -> bool;

/// Whether a password matches a stored hash record, as the verification
/// primitive decides it: a function of the two alone.
pub uninterp spec fn argon2_matches(password: Seq<u8>, hash: Seq<char>) -> bool;

/// The three ways a password check can end.
#[derive(Debug, PartialEq, Eq, Structural)]
pub enum PasswordCheck {
    /// The stored text is not a hash record at all.
    BadHash,
    /// The record is sound but the password is not its preimage.
    Mismatch,
    /// The password matches.
    Match,
}

/// Relies on `argon2::PasswordHash::new` (whether the stored text parses as
/// a PHC record) and `Argon2::default().verify_password` (whether the
/// password matches it); each verdict depends only on its inputs.
#[verifier::external_body]
fn verify_password(password: &[u8], hash: &str) -> (r: PasswordCheck)
    ensures
        (r is BadHash) == !phc_parses(hash@),
        phc_parses(hash@) ==> ((r is Match) == argon2_matches(password@, hash@)),
{
    match argon2::PasswordHash::new(hash) {
        Err(_) => PasswordCheck::BadHash,
        Ok(parsed) => match argon2::PasswordVerifier::verify_password(
            &argon2::Argon2::default(),
            password,
            &parsed,
        ) {
            Ok(()) => PasswordCheck::Match,
            Err(_) => PasswordCheck::Mismatch,
        },
    }
}

/// Relies on `Argon2::default().hash_password` with its random salt:
/// whatever salt is drawn, the produced record parses and the hashed
/// password matches it.
#[verifier::external_body]
fn hash_password(password: &[u8]) -> (r: Option<String>)
    ensures
        r matches Some(h) ==> phc_parses(h@) && argon2_matches(password@, h@),
{
    match argon2::PasswordHasher::hash_password(&argon2::Argon2::default(), password) {
        Ok(h) => Some(h.to_string()),
        Err(_) => None,
    }
}

/// The login decision over a stored user's password field: a user without a
/// password cannot log in; an unreadable stored record is an internal
/// fault; a sound record decides by match.
pub fn check_credentials(stored_password: Option<&String>, password: &str) -> (r: Result<
    (),
    ApplicationError,
>)
    ensures
        match r {
            Ok(()) => (stored_password matches Some(h) && phc_parses(h@) && argon2_matches(
                vstd::utf8::encode_utf8(password@),
                h@,
            )),
            Err(e) => match stored_password {
                None => e is LoginError,
                Some(h) => {
                    &&& !phc_parses(h@) ==> e is InternalServerError
                    &&& (phc_parses(h@) && !argon2_matches(
                        vstd::utf8::encode_utf8(password@),
                        h@,
                    )) ==> e is LoginError
                    &&& !(phc_parses(h@) && argon2_matches(
                        vstd::utf8::encode_utf8(password@),
                        h@,
                    ))
                },
            },
        },
{
    let stored = match stored_password {
        Some(h) => h,
        None => {
            return Err(ApplicationError::LoginError);
        },
    };
    match verify_password(password.as_bytes(), stored.as_str()) {
        PasswordCheck::BadHash => Err(ApplicationError::InternalServerError),
        PasswordCheck::Mismatch => Err(ApplicationError::LoginError),
        PasswordCheck::Match => Ok(()),
    }
}

/// The signup conversion: hash the submitted password and shape the user to
/// create. Only a refusal of the hashing primitive fails, as an internal
/// fault.
pub fn convert_to_user_request(signup_request: LoginRequest) -> (r: Result<
    UserCreateRequest,
    ApplicationError,
>)
    ensures
        match r {
            Ok(req) => {
                &&& req.email == signup_request.email
                &&& (req.password matches Some(h) && phc_parses(h@) && argon2_matches(
                    vstd::utf8::encode_utf8(signup_request.password@),
                    h@,
                ))
                &&& req.first_name@ == "John"@
                &&& (req.last_name matches Some(l) && l@ == "Doe"@)
            },
            Err(e) => e is InternalServerError,
        },
{
    proof {
        reveal_strlit("John");
        reveal_strlit("Doe");
    }
    let hashed = match hash_password(signup_request.password.as_str().as_bytes()) {
        Some(h) => h,
        None => {
            return Err(ApplicationError::InternalServerError);
        },
    };
    Ok(
        UserCreateRequest {
            email: signup_request.email,
            password: Some(hashed),
            first_name: "John".to_owned(),
            last_name: Some("Doe".to_owned()),
        },
    )
}

/// The role gate: only the admin role grants owner-equivalent privilege;
/// an absent binding or any other role does not.
pub fn is_admin(role_id: Option<i64>) -> (r: bool)
    ensures
        r == (role_id == Some(ADMIN_ROLE_ID)),
{
    match role_id {
        Some(rid) => rid == ADMIN_ROLE_ID,
        None => false,
    }
}

} // verus!
