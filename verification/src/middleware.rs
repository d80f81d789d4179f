//! The tenant-scoping stage: on routes that declare themselves
//! tenant-scoped it reads the tenant header, checks the tenant against the
//! already-resolved identity, and binds the organisation for the handler.
//! It runs after authentication and fails closed when no identity is there.

use vstd::prelude::*;
use crate::errors::{ApiError, ApplicationError, RequestError};
use crate::headers::{spec_lookup, spec_parse_uuid_chars, Headers, ORGANISATION_ID_HEADER};
use crate::identity::{Identity, OrganisationId};

verus! {

/// What the tenant-scoping stage decides for a request.
pub enum BindOutcome {
    /// The header names a tenant among the caller's organisations.
    Bound(OrganisationId),
    /// No identity was resolved, or the tenant is not the caller's —
    /// deliberately the same answer, so a non-member learns nothing about a
    /// tenant's existence.
    NotAuthorized,
    /// The tenant header is absent.
    MissingHeader,
    /// The tenant header is present but does not read as an identifier.
    MalformedHeader,
}

/// The stage's decision, given the resolved identity (if any) and the
/// request's headers.
pub open spec fn spec_bind_decision(
    identity: Option<Identity>,
    headers: Seq<(String, String)>,
) -> BindOutcome {
    match identity {
        None => BindOutcome::NotAuthorized,
        Some(id) => match spec_lookup(headers, ORGANISATION_ID_HEADER@) {
            None => BindOutcome::MissingHeader,
            Some(value) => match spec_parse_uuid_chars(value) {
                None => BindOutcome::MalformedHeader,
                Some(org) => if id.organisation_ids@.contains(org) {
                    BindOutcome::Bound(OrganisationId(org))
                } else {
                    BindOutcome::NotAuthorized
                },
            },
        },
    }
}

/// Binds the tenant a scoped request addresses, or short-circuits with the
/// error each decision maps to: `Unauthorized` for a missing identity or a
/// foreign tenant, `HeaderNotFound` or `InvalidUUIDHeaderFormat` (each
/// naming the tenant header) for a missing or malformed header.
pub fn inject_organisation_id(identity: &Option<Identity>, headers: &Headers) -> (r: Result<
    OrganisationId,
    ApiError,
>)
    ensures
        match spec_bind_decision(*identity, headers.entries@) {
            BindOutcome::Bound(o) => r == Ok::<OrganisationId, ApiError>(o),
            BindOutcome::NotAuthorized => r == Err::<OrganisationId, ApiError>(
                ApiError::ApplicationError(ApplicationError::Unauthorized),
            ),
            BindOutcome::MissingHeader => (r matches Err(ApiError::RequestError(
                RequestError::HeaderNotFound(h),
            )) && h@ == ORGANISATION_ID_HEADER@),
            BindOutcome::MalformedHeader => (r matches Err(ApiError::RequestError(
                RequestError::InvalidUUIDHeaderFormat(h),
            )) && h@ == ORGANISATION_ID_HEADER@),
        },
{
    let id = match identity {
        Some(id) => id,
        None => {
            return Err(ApiError::ApplicationError(ApplicationError::Unauthorized));
        },
    };
    let organisation_id = match crate::headers::extract_uuid_from_required_header(
        headers,
        ORGANISATION_ID_HEADER,
    ) {
        Ok(u) => u,
        Err(e) => {
            return Err(ApiError::RequestError(e));
        },
    };
    if id.has_organisation(organisation_id) {
        Ok(OrganisationId(organisation_id))
    } else {
        Err(ApiError::ApplicationError(ApplicationError::Unauthorized))
    }
}

/// The binder rejects, with the authorization failure, a well-formed tenant
/// id outside the caller's organisations, and accepts one inside them,
/// binding exactly that tenant.
pub proof fn lemma_binder_membership(identity: Identity, headers: Seq<(String, String)>, org: u128)
    requires
        spec_lookup(headers, ORGANISATION_ID_HEADER@) matches Some(v) && spec_parse_uuid_chars(v)
            == Some(org),
    ensures
        identity.organisation_ids@.contains(org) ==> spec_bind_decision(Some(identity), headers)
            == BindOutcome::Bound(OrganisationId(org)),
        !identity.organisation_ids@.contains(org) ==> spec_bind_decision(Some(identity), headers)
            == BindOutcome::NotAuthorized,
{
}

} // verus!
