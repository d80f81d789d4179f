//! The request pipeline: correlation-id stamping and propagation, token
//! extraction precedence, stage ordering, short-circuits, and tenant
//! binding.

use swift_auth::config::{init, init_keys, AppConfig, Keys};
use swift_auth::errors::{ApiError, ApplicationError, AuthenticationError, RequestError};
use swift_auth::extract::get_token;
use swift_auth::headers::{
    extract_from_required_header, extract_uuid_from_required_header, Headers,
    ORGANISATION_ID_HEADER, TRACING_ID_HEADER,
};
use swift_auth::identity::{Identity, OrganisationId};
use swift_auth::jwt::issue;
use swift_auth::middleware::inject_organisation_id;
use swift_auth::pipeline::{
    extract_tracing_id_from_request, propagate_tracing_id, run_pipeline, RouteKind,
};

fn test_config() -> AppConfig {
    init(
        Some("local".to_string()),
        Some("swift-iss".to_string()),
        Some("swift-aud".to_string()),
        Some(1),
    )
    .unwrap()
}

fn test_keys() -> Keys {
    init_keys(b"pipeline-secret".to_vec())
}

fn header_list(pairs: &[(&str, &str)]) -> Headers {
    let mut h = Headers::new();
    for (name, value) in pairs {
        h.set(name.to_string(), value.to_string());
    }
    h
}

const USER: u128 = 7;
const ORG: u128 = 0x1111_2222_3333_4444_5555_6666_7777_8888;
const OTHER_ORG: u128 = 0x9999_aaaa_bbbb_cccc_dddd_eeee_ffff_0000;
const NOW: u64 = 1_700_000_000;
const FRESH: u128 = 0xabcdef;

fn org_header_value(org: u128) -> String {
    uuid::Uuid::from_u128(org).hyphenated().to_string()
}

#[test]
fn cookie_wins_over_bearer_header() {
    let cookie = "cookie-token".to_string();
    let auth = "Bearer header-token".to_string();
    let token = get_token(Some(&cookie), Some(&auth)).unwrap();
    assert_eq!(token, "cookie-token");
}

#[test]
fn bearer_header_supplies_token_without_cookie() {
    let auth = "Bearer header-token".to_string();
    let token = get_token(None, Some(&auth)).unwrap();
    assert_eq!(token, "header-token");
}

#[test]
fn non_bearer_header_fails_extraction() {
    for bad in ["bearer x", "Basic abc", "Bearer", "BearerX y", ""] {
        let auth = bad.to_string();
        let r = get_token(None, Some(&auth));
        assert_eq!(r.unwrap_err(), AuthenticationError::InvalidToken, "value {bad:?}");
    }
    assert_eq!(get_token(None, None).unwrap_err(), AuthenticationError::InvalidToken);
}

#[test]
fn request_id_always_overwritten() {
    let mut headers = header_list(&[(TRACING_ID_HEADER, "client-spoofed-id")]);
    let mut response_headers = Headers::new();
    let result = run_pipeline(
        RouteKind::Public,
        &mut headers,
        None,
        &test_config(),
        &test_keys(),
        NOW,
        FRESH,
    );
    // The stamped id is the fresh identifier's text, not the client's.
    let stamped = headers.get(TRACING_ID_HEADER).unwrap().clone();
    assert_eq!(stamped, uuid::Uuid::from_u128(FRESH).hyphenated().to_string());
    assert_ne!(stamped, "client-spoofed-id");
    assert_eq!(result.tracing_id, stamped);
    // The span reads the id that stage one stamped.
    assert_eq!(extract_tracing_id_from_request(&headers).unwrap(), stamped);
    // The response carries the same id.
    propagate_tracing_id(&mut response_headers, &result.tracing_id);
    assert_eq!(response_headers.get(TRACING_ID_HEADER).unwrap(), &stamped);
}

#[test]
fn public_route_skips_authentication() {
    let mut headers = Headers::new();
    let result = run_pipeline(
        RouteKind::Public,
        &mut headers,
        None,
        &test_config(),
        &test_keys(),
        NOW,
        FRESH,
    );
    let ctx = result.outcome.unwrap();
    assert!(ctx.identity.is_none());
    assert!(ctx.organisation_id.is_none());
}

#[test]
fn protected_route_resolves_identity_from_cookie() {
    let cfg = test_config();
    let keys = test_keys();
    let (_, token) = issue(USER, vec![ORG], &cfg, &keys, NOW, 1).unwrap();
    let mut headers = Headers::new();
    let result = run_pipeline(
        RouteKind::Protected,
        &mut headers,
        Some(&token),
        &cfg,
        &keys,
        NOW,
        FRESH,
    );
    let ctx = result.outcome.unwrap();
    let identity = ctx.identity.unwrap();
    assert_eq!(identity.user_id, USER);
    assert_eq!(identity.organisation_ids, vec![ORG]);
    assert!(ctx.organisation_id.is_none());
}

#[test]
fn expired_token_short_circuits_protected_route() {
    let cfg = test_config();
    let keys = test_keys();
    let (_, token) = issue(USER, vec![ORG], &cfg, &keys, NOW, 1).unwrap();
    let later = NOW + cfg.ttl_seconds + 11;
    let mut headers = Headers::new();
    let result = run_pipeline(
        RouteKind::Protected,
        &mut headers,
        Some(&token),
        &cfg,
        &keys,
        later,
        FRESH,
    );
    // The handler is never reached: the outcome is the failure itself.
    let err = result.outcome.unwrap_err();
    assert_eq!(
        err,
        ApiError::AuthenticationError(AuthenticationError::ExpiredToken)
    );
    assert_eq!(err.status_code(), 401);
    // The answer is a 401 whose body carries one general message.
    let body = err.clone().into_error_response();
    assert_eq!(body.status_code, 401);
    let msgs = body.errors.unwrap();
    assert_eq!(msgs.len(), 1);
    assert!(msgs[0].field.is_none());
    assert_eq!(msgs[0].message, "Authentication token has expired");
    // The correlation id is still stamped and available for the response.
    assert_eq!(
        result.tracing_id,
        uuid::Uuid::from_u128(FRESH).hyphenated().to_string()
    );
}

#[test]
fn tenant_route_without_header_fails_with_header_not_found() {
    let cfg = test_config();
    let keys = test_keys();
    let (_, token) = issue(USER, vec![ORG], &cfg, &keys, NOW, 1).unwrap();
    let mut headers = Headers::new();
    let result = run_pipeline(
        RouteKind::TenantScoped,
        &mut headers,
        Some(&token),
        &cfg,
        &keys,
        NOW,
        FRESH,
    );
    match result.outcome.unwrap_err() {
        ApiError::RequestError(RequestError::HeaderNotFound(h)) => {
            assert_eq!(h, ORGANISATION_ID_HEADER);
        },
        other => panic!("expected HeaderNotFound, got {other:?}"),
    }
}

#[test]
fn tenant_route_with_foreign_tenant_fails_unauthorized() {
    let cfg = test_config();
    let keys = test_keys();
    let (_, token) = issue(USER, vec![ORG], &cfg, &keys, NOW, 1).unwrap();
    let mut headers = header_list(&[(ORGANISATION_ID_HEADER, &org_header_value(OTHER_ORG))]);
    let result = run_pipeline(
        RouteKind::TenantScoped,
        &mut headers,
        Some(&token),
        &cfg,
        &keys,
        NOW,
        FRESH,
    );
    let err = result.outcome.unwrap_err();
    assert_eq!(err, ApiError::ApplicationError(ApplicationError::Unauthorized));
    assert_eq!(err.status_code(), 401);
}

#[test]
fn tenant_route_binds_member_tenant() {
    let cfg = test_config();
    let keys = test_keys();
    let (_, token) = issue(USER, vec![ORG, OTHER_ORG], &cfg, &keys, NOW, 1).unwrap();
    let mut headers = header_list(&[(ORGANISATION_ID_HEADER, &org_header_value(ORG))]);
    let result = run_pipeline(
        RouteKind::TenantScoped,
        &mut headers,
        Some(&token),
        &cfg,
        &keys,
        NOW,
        FRESH,
    );
    let ctx = result.outcome.unwrap();
    assert_eq!(ctx.organisation_id.unwrap(), OrganisationId(ORG));
}

#[test]
fn binder_without_identity_fails_closed() {
    let headers = header_list(&[(ORGANISATION_ID_HEADER, &org_header_value(ORG))]);
    let r = inject_organisation_id(&None, &headers);
    assert_eq!(
        r.unwrap_err(),
        ApiError::ApplicationError(ApplicationError::Unauthorized)
    );
}

#[test]
fn binder_rejects_malformed_tenant_id() {
    let identity = Identity { user_id: USER, organisation_ids: vec![ORG] };
    let headers = header_list(&[(ORGANISATION_ID_HEADER, "not-a-uuid")]);
    match inject_organisation_id(&Some(identity), &headers).unwrap_err() {
        ApiError::RequestError(RequestError::InvalidUUIDHeaderFormat(h)) => {
            assert_eq!(h, ORGANISATION_ID_HEADER);
        },
        other => panic!("expected InvalidUUIDHeaderFormat, got {other:?}"),
    }
}

#[test]
fn header_lookup_and_overwrite() {
    let mut h = header_list(&[("a", "1"), ("b", "2")]);
    assert_eq!(h.get("a").unwrap(), "1");
    assert!(h.get("c").is_none());
    h.set("a".to_string(), "3".to_string());
    assert_eq!(h.get("a").unwrap(), "3");
    assert_eq!(h.get("b").unwrap(), "2");
    assert_eq!(
        extract_from_required_header(&h, "missing").unwrap_err(),
        RequestError::HeaderNotFound("missing".to_string())
    );
    h.set("org".to_string(), org_header_value(ORG));
    assert_eq!(extract_uuid_from_required_header(&h, "org").unwrap(), ORG);
    // The plain 32-digit form and uppercase hex are accepted too.
    h.set("org2".to_string(), uuid::Uuid::from_u128(ORG).simple().to_string());
    assert_eq!(extract_uuid_from_required_header(&h, "org2").unwrap(), ORG);
    h.set("org3".to_string(), org_header_value(ORG).to_uppercase());
    assert_eq!(extract_uuid_from_required_header(&h, "org3").unwrap(), ORG);
    // The braced and URN forms are accepted too.
    h.set("org4".to_string(), uuid::Uuid::from_u128(ORG).braced().to_string());
    assert_eq!(extract_uuid_from_required_header(&h, "org4").unwrap(), ORG);
    h.set("org5".to_string(), uuid::Uuid::from_u128(ORG).urn().to_string());
    assert_eq!(extract_uuid_from_required_header(&h, "org5").unwrap(), ORG);
}
