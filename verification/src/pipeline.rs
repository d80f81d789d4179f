//! The ordered middleware chain every request passes through: correlation-id
//! stamping (always, first, overwriting whatever the client sent),
//! authentication on protected routes, tenant binding on tenant-scoped
//! routes. Any stage's failure short-circuits: later stages never run and
//! the handler is never reached, yet the stamped correlation id survives.

use vstd::prelude::*;
use crate::config::{AppConfig, Keys};
use crate::errors::{ApiError, ApplicationError, AuthenticationError, RequestError};
use crate::headers::{spec_lookup, Headers, ORGANISATION_ID_HEADER, TRACING_ID_HEADER};
use crate::identity::{Identity, OrganisationId};
use crate::jwt::spec_authenticate;
use crate::uuidfmt::spec_uuid_str;

verus! {

/// The header a bearer token may arrive in.
pub const AUTHORIZATION_HEADER: &'static str = "authorization";

/// How a route is registered: public routes skip authentication entirely;
/// protected ones authenticate; tenant-scoped ones authenticate and then
/// bind the tenant header.
#[derive(Debug, Clone, Copy, PartialEq, Eq, Structural)]
pub enum RouteKind {
    Public,
    Protected,
    TenantScoped,
}

/// What the handler receives when the pipeline lets a request through.
#[derive(Debug)]
pub struct RequestContext {
    pub identity: Option<Identity>,
    pub organisation_id: Option<OrganisationId>,
}

/// A failed stage, stripped of its message text.
pub enum PipelineError {
    Authentication(AuthenticationError),
    MissingTenantHeader,
    MalformedTenantHeader,
    NotAuthorized,
}

/// What the chain decides for a request, from the route's kind, the token
/// sources and the headers as the client sent them. Stages run in order and
/// the first failure is the decision.
pub open spec fn spec_pipeline_decision(
    route: RouteKind,
    secret: Seq<u8>,
    iss: Seq<u8>,
    aud: Seq<u8>,
    now: u64,
    cookie: Option<Seq<char>>,
    headers: Seq<(String, String)>,
) -> Result<(Option<(u128, Seq<u128>)>, Option<u128>), PipelineError> {
    match route {
        RouteKind::Public => Ok((None::<(u128, Seq<u128>)>, None::<u128>)),
        RouteKind::Protected => match spec_authenticate(
            secret,
            iss,
            aud,
            now,
            cookie,
            spec_lookup(headers, AUTHORIZATION_HEADER@),
        ) {
            Err(e) => Err(PipelineError::Authentication(e)),
            Ok((user_id, orgs)) => Ok((Some((user_id, orgs)), None::<u128>)),
        },
        RouteKind::TenantScoped => match spec_authenticate(
            secret,
            iss,
            aud,
            now,
            cookie,
            spec_lookup(headers, AUTHORIZATION_HEADER@),
        ) {
            Err(e) => Err(PipelineError::Authentication(e)),
            Ok((user_id, orgs)) => match spec_lookup(headers, ORGANISATION_ID_HEADER@) {
                None => Err(PipelineError::MissingTenantHeader),
                Some(value) => match crate::headers::spec_parse_uuid_chars(value) {
                    None => Err(PipelineError::MalformedTenantHeader),
                    Some(org) => if orgs.contains(org) {
                        Ok((Some((user_id, orgs)), Some(org)))
                    } else {
                        Err(PipelineError::NotAuthorized)
                    },
                },
            },
        },
    }
}

/// What one run of the chain leaves behind: the correlation id stamped on
/// the request (and owed to the response), and either a context for the
/// handler or the short-circuiting error.
pub struct PipelineResult {
    pub tracing_id: String,
    pub outcome: Result<RequestContext, ApiError>,
}

/// Runs the chain on one request.
///
/// The correlation-id header is overwritten with the text of `fresh_id`
/// whatever the client sent, and every other header is untouched; the
/// returned `tracing_id` is that same text, present on the request whether
/// or not a later stage short-circuits. The outcome follows
/// [`spec_pipeline_decision`] over the headers as the client sent them.
pub fn run_pipeline(
    route: RouteKind,
    headers: &mut Headers,
    cookie_token: Option<&String>,
    cfg: &AppConfig,
    keys: &Keys,
    now: u64,
    fresh_id: u128,
) -> (r: PipelineResult)
    ensures
        vstd::utf8::encode_utf8(r.tracing_id@) == spec_uuid_str(fresh_id),
        spec_lookup(final(headers).entries@, TRACING_ID_HEADER@) == Some(r.tracing_id@),
        forall|other: Seq<char>|
            other != TRACING_ID_HEADER@ ==> spec_lookup(final(headers).entries@, other)
                == spec_lookup(old(headers).entries@, other),
        ({
            let decision = spec_pipeline_decision(
                route,
                keys.secret@,
                vstd::utf8::encode_utf8(cfg.iss@),
                vstd::utf8::encode_utf8(cfg.aud@),
                now,
                match cookie_token {
                    Some(c) => Some(c@),
                    None => None,
                },
                old(headers).entries@,
            );
            match decision {
                Ok((id_model, org_model)) => (r.outcome matches Ok(ctx) && {
                    &&& match id_model {
                        None => ctx.identity is None,
                        Some((user_id, orgs)) => ctx.identity matches Some(id) && id.user_id
                            == user_id && id.organisation_ids@ == orgs,
                    }
                    &&& ctx.organisation_id == match org_model {
                        None => None::<OrganisationId>,
                        Some(org) => Some(OrganisationId(org)),
                    }
                }),
                Err(PipelineError::Authentication(e)) => r.outcome == Err::<RequestContext, ApiError>(
                    ApiError::AuthenticationError(e),
                ),
                Err(PipelineError::MissingTenantHeader) => (r.outcome matches Err(
                    ApiError::RequestError(RequestError::HeaderNotFound(h)),
                ) && h@ == ORGANISATION_ID_HEADER@),
                Err(PipelineError::MalformedTenantHeader) => (r.outcome matches Err(
                    ApiError::RequestError(RequestError::InvalidUUIDHeaderFormat(h)),
                ) && h@ == ORGANISATION_ID_HEADER@),
                Err(PipelineError::NotAuthorized) => r.outcome == Err::<RequestContext, ApiError>(
                    ApiError::ApplicationError(ApplicationError::Unauthorized),
                ),
            }
        }),
{
    let ghost before = headers.entries@;
    let tracing_id = stamp_request_id(headers, fresh_id);
    proof {
        reveal_strlit("x-tracing-id");
        reveal_strlit("x-organisation-id");
        reveal_strlit("authorization");
        assert(AUTHORIZATION_HEADER@.len() != TRACING_ID_HEADER@.len());
        assert(ORGANISATION_ID_HEADER@.len() != TRACING_ID_HEADER@.len());
        assert(AUTHORIZATION_HEADER@ != TRACING_ID_HEADER@);
        assert(ORGANISATION_ID_HEADER@ != TRACING_ID_HEADER@);
        assert(spec_lookup(headers.entries@, AUTHORIZATION_HEADER@) == spec_lookup(
            before,
            AUTHORIZATION_HEADER@,
        ));
        assert(spec_lookup(headers.entries@, ORGANISATION_ID_HEADER@) == spec_lookup(
            before,
            ORGANISATION_ID_HEADER@,
        ));
    }
    let outcome = match route {
        RouteKind::Public => Ok(RequestContext { identity: None, organisation_id: None }),
        RouteKind::Protected => {
            match crate::jwt::authenticate(
                cookie_token,
                headers.get(AUTHORIZATION_HEADER),
                cfg,
                keys,
                now,
            ) {
                Ok(identity) => Ok(
                    RequestContext { identity: Some(identity), organisation_id: None },
                ),
                Err(e) => Err(ApiError::AuthenticationError(e)),
            }
        },
        RouteKind::TenantScoped => {
            match crate::jwt::authenticate(
                cookie_token,
                headers.get(AUTHORIZATION_HEADER),
                cfg,
                keys,
                now,
            ) {
                Err(e) => Err(ApiError::AuthenticationError(e)),
                Ok(identity) => {
                    let identity_slot = Some(identity);
                    match crate::middleware::inject_organisation_id(&identity_slot, headers) {
                        Ok(org) => Ok(
                            RequestContext {
                                identity: identity_slot,
                                organisation_id: Some(org),
                            },
                        ),
                        Err(e) => Err(e),
                    }
                },
            }
        },
    };
    PipelineResult { tracing_id, outcome }
}

/// Draws a fresh random identifier and gives its canonical text, the value
/// stage one stamps.
pub fn fresh_tracing_id() -> (r: String)
    ensures
        exists|u: u128| vstd::utf8::encode_utf8(r@) == spec_uuid_str(u),
{
    let fresh = crate::jwt::new_random_id();
    let text = crate::uuidfmt::format_uuid(fresh);
    proof {
        crate::claims::lemma_uuid_str_json_safe(fresh);
        assert forall|i: int| 0 <= i < text@.len() implies #[trigger] text@[i] < 0x80 by {
            assert(crate::config::json_safe_byte(spec_uuid_str(fresh)[i]));
        }
        crate::jwt::lemma_ascii_valid_utf8(text@);
    }
    match crate::jwt::bytes_to_string(text) {
        Some(s) => {
            proof {
                assert(vstd::utf8::encode_utf8(s@) == spec_uuid_str(fresh));
            }
            s
        },
        None => {
            proof {
                assert(false);
            }
            String::new()
        },
    }
}

/// Stage one: overwrite the correlation-id header with the text of a fresh
/// identifier, never trusting the client's value.
pub fn stamp_request_id(headers: &mut Headers, fresh_id: u128) -> (r: String)
    ensures
        vstd::utf8::encode_utf8(r@) == spec_uuid_str(fresh_id),
        spec_lookup(final(headers).entries@, TRACING_ID_HEADER@) == Some(r@),
        forall|other: Seq<char>|
            other != TRACING_ID_HEADER@ ==> spec_lookup(final(headers).entries@, other)
                == spec_lookup(old(headers).entries@, other),
{
    let text = crate::uuidfmt::format_uuid(fresh_id);
    proof {
        crate::claims::lemma_uuid_str_json_safe(fresh_id);
        assert forall|i: int| 0 <= i < text@.len() implies #[trigger] text@[i] < 0x80 by {
            assert(crate::config::json_safe_byte(spec_uuid_str(fresh_id)[i]));
        }
        crate::jwt::lemma_ascii_valid_utf8(text@);
    }
    let tracing_id = match crate::jwt::bytes_to_string(text) {
        Some(s) => s,
        None => {
            proof {
                assert(false);
            }
            String::new()
        },
    };
    headers.set(TRACING_ID_HEADER.to_owned(), tracing_id.clone());
    tracing_id
}

/// The correlation id stamped on the request, read back for the tracing
/// span; present whenever stage one has run.
pub fn extract_tracing_id_from_request(headers: &Headers) -> (r: Option<String>)
    ensures
        match r {
            Some(v) => spec_lookup(headers.entries@, TRACING_ID_HEADER@) == Some(v@),
            None => spec_lookup(headers.entries@, TRACING_ID_HEADER@) is None,
        },
{
    crate::headers::extract_from_header(headers, TRACING_ID_HEADER)
}

/// Stage three: the same correlation id is written onto the outbound
/// response, so caller and server logs can be joined.
pub fn propagate_tracing_id(response_headers: &mut Headers, tracing_id: &String)
    ensures
        spec_lookup(final(response_headers).entries@, TRACING_ID_HEADER@) == Some(tracing_id@),
        forall|other: Seq<char>|
            other != TRACING_ID_HEADER@ ==> spec_lookup(final(response_headers).entries@, other)
                == spec_lookup(old(response_headers).entries@, other),
{
    response_headers.set(TRACING_ID_HEADER.to_owned(), tracing_id.clone());
}

/// The provable core of "the response's correlation id is never the
/// client's": the stamped id is the fresh identifier's text, so it differs
/// from every client-supplied value whose text is not that identifier's.
pub proof fn lemma_correlation_id_never_client(
    tracing_id: Seq<char>,
    fresh_id: u128,
    client_value: Seq<char>,
)
    requires
        vstd::utf8::encode_utf8(tracing_id) == spec_uuid_str(fresh_id),
        vstd::utf8::encode_utf8(client_value) != spec_uuid_str(fresh_id),
    ensures
        tracing_id != client_value,
{
}

/// Tenant binding runs only after authentication: on a tenant-scoped route,
/// whenever authentication fails, the decision is that failure — the tenant
/// header is never consulted and no tenant is ever bound.
pub proof fn lemma_binding_after_authentication(
    secret: Seq<u8>,
    iss: Seq<u8>,
    aud: Seq<u8>,
    now: u64,
    cookie: Option<Seq<char>>,
    headers: Seq<(String, String)>,
)
    requires
        spec_authenticate(
            secret,
            iss,
            aud,
            now,
            cookie,
            spec_lookup(headers, AUTHORIZATION_HEADER@),
        ) is Err,
    ensures
        spec_pipeline_decision(RouteKind::TenantScoped, secret, iss, aud, now, cookie, headers)
            == Err::<(Option<(u128, Seq<u128>)>, Option<u128>), PipelineError>(
            PipelineError::Authentication(
                spec_authenticate(
                    secret,
                    iss,
                    aud,
                    now,
                    cookie,
                    spec_lookup(headers, AUTHORIZATION_HEADER@),
                )->Err_0,
            ),
        ),
{
}

} // verus!
