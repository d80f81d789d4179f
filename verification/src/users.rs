//! Users as the service layer sees them: the request shapes, the stored
//! shape, and the decisions the user service makes before and after the
//! store is touched. Identifiers are 128-bit values, instants are Unix
//! seconds; the store itself is outside this crate.

use vstd::prelude::*;
use crate::errors::{ApplicationError, ErrorMessage, RequestError};

verus! {

/// What a caller submits to create a user.
#[derive(Debug)]
pub struct UserCreateRequest {
    pub email: String,
    pub password: Option<String>,
    pub first_name: String,
    pub last_name: Option<String>,
}

/// What a caller submits to update a user.
#[derive(Debug)]
pub struct UserPutRequest {
    pub password: Option<String>,
    pub first_name: String,
    pub last_name: Option<String>,
}

/// A stored user.
#[derive(Debug)]
pub struct SwiftUser {
    pub id: u128,
    pub email: String,
    pub password: Option<String>,
    pub first_name: String,
    pub last_name: Option<String>,
    pub created_at: i64,
    pub updated_at: i64,
}

/// The column values an update writes.
#[derive(Debug)]
pub struct PutSwiftUser {
    pub password: Option<String>,
    pub first_name: String,
    pub last_name: Option<String>,
    pub updated_at: i64,
}

/// A user's membership of one organisation, with the role held there.
#[derive(Debug, Clone, Copy, PartialEq, Eq, Structural)]
pub struct SwiftUserOrganisation {
    pub swift_user_id: u128,
    pub organisation_id: u128,
    pub role_id: i64,
}

/// The role denoting owner-equivalent privilege within a tenant.
pub const ADMIN_ROLE_ID: i64 = 1;

/// The role given to a user added to an organisation by its admin.
pub const DEFAULT_USER_ROLE_ID: i64 = 2;

/// Whether a piece of text is an acceptable email address, as the
/// validation primitive decides it: a function of the text alone.
pub uninterp spec fn is_valid_email(s: Seq<char>) -> bool;

/// Relies on `validator::ValidateEmail::validate_email` for `&str`: the
/// verdict depends on the text alone, and its first checks refuse empty
/// text outright.
#[verifier::external_body]
fn validate_email(s: &str) -> (r: bool)
    ensures
        r == is_valid_email(s@),
        s@.len() == 0 ==> !r,
{
    validator::ValidateEmail::validate_email(&s)
}

/// The message a rejected email address is reported with.
pub open spec fn spec_invalid_email_message() -> Seq<char> {
    "Email address is not valid"@
}

/// The service's validation step before any user is created or looked up by
/// email: rejected addresses become a field-tagged validation error.
pub fn validate_user_email(email: &str) -> (r: Result<(), RequestError>)
    ensures
        match r {
            Ok(()) => is_valid_email(email@),
            Err(e) => !is_valid_email(email@) && (e matches RequestError::ValidationError(msgs)
                && msgs@.len() == 1 && (msgs@[0].field matches Some(f) && f@ == "email"@)
                && msgs@[0].message@ == spec_invalid_email_message()),
        },
{
    proof {
        reveal_strlit("email");
        reveal_strlit("Email address is not valid");
    }
    if validate_email(email) {
        Ok(())
    } else {
        let message: String = "Email address is not valid".to_owned();
        let field: String = "email".to_owned();
        let mut msgs: Vec<ErrorMessage> = Vec::new();
        msgs.push(ErrorMessage { field: Some(field), message });
        Err(RequestError::ValidationError(msgs))
    }
}

/// The stored user a creation request becomes, given the fresh identifier
/// and the clock's reading.
pub fn into_swift_user(request: UserCreateRequest, id: u128, now: i64) -> (r: SwiftUser)
    ensures
        r.id == id,
        r.email == request.email,
        r.password == request.password,
        r.first_name == request.first_name,
        r.last_name == request.last_name,
        r.created_at == now,
        r.updated_at == now,
{
    SwiftUser {
        id,
        email: request.email,
        password: request.password,
        first_name: request.first_name,
        last_name: request.last_name,
        created_at: now,
        updated_at: now,
    }
}

/// The column values an update request writes; the stored last name is
/// cleared, never carried over.
pub fn into_put_swift_user(request: UserPutRequest, now: i64) -> (r: PutSwiftUser)
    ensures
        r.password == request.password,
        r.first_name == request.first_name,
        r.last_name is None,
        r.updated_at == now,
{
    PutSwiftUser {
        password: request.password,
        first_name: request.first_name,
        last_name: None,
        updated_at: now,
    }
}

/// The membership row that grants a user their default role in an
/// organisation.
pub fn member_binding(user_id: u128, organisation_id: u128) -> (r: SwiftUserOrganisation)
    ensures
        r == (SwiftUserOrganisation {
            swift_user_id: user_id,
            organisation_id,
            role_id: DEFAULT_USER_ROLE_ID,
        }),
{
    SwiftUserOrganisation { swift_user_id: user_id, organisation_id, role_id: DEFAULT_USER_ROLE_ID }
}

/// The membership row that makes a user admin of an organisation they
/// created.
pub fn admin_binding(user_id: u128, organisation_id: u128) -> (r: SwiftUserOrganisation)
    ensures
        r == (SwiftUserOrganisation {
            swift_user_id: user_id,
            organisation_id,
            role_id: ADMIN_ROLE_ID,
        }),
{
    SwiftUserOrganisation { swift_user_id: user_id, organisation_id, role_id: ADMIN_ROLE_ID }
}

/// What an update or delete that touched no row means: the resource was not
/// there.
pub fn update_outcome(rows_updated: u64) -> (r: Result<(), ApplicationError>)
    ensures
        match r {
            Ok(()) => rows_updated > 0,
            Err(e) => rows_updated == 0 && e is NotFound,
        },
{
    if rows_updated == 0 {
        Err(ApplicationError::NotFound)
    } else {
        Ok(())
    }
}

/// What an absent lookup result means: the resource was not found.
pub fn found_or_not_found<T>(found: Option<T>) -> (r: Result<T, ApplicationError>)
    ensures
        match r {
            Ok(v) => found matches Some(f) && v == f,
            Err(e) => found is None && e is NotFound,
        },
{
    match found {
        Some(v) => Ok(v),
        None => Err(ApplicationError::NotFound),
    }
}

} // verus!
