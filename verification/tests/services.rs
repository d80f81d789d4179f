//! The service-layer decisions and the end-to-end signup/login flows, with
//! the real hashing and validation primitives linked.

use swift_auth::auth::{check_credentials, convert_to_user_request, is_admin, LoginRequest};
use swift_auth::config::{init, init_keys};
use swift_auth::cookie::build_cookie;
use swift_auth::errors::{
    ApiError, ApplicationError, AuthenticationError, DbError, RequestError,
};
use swift_auth::jwt::handle_decode;
use swift_auth::jwt::handle_encode_for_user;
use swift_auth::organisations::{can_create_organisation, OrganisationCreateRequest};
use swift_auth::response::ErrorResponse;
use swift_auth::users::{
    admin_binding, found_or_not_found, into_put_swift_user, into_swift_user, member_binding,
    update_outcome, validate_user_email, UserCreateRequest, UserPutRequest,
};

#[test]
fn email_validation_accepts_and_rejects() {
    assert!(validate_user_email("a@b.com").is_ok());
    for bad in ["", "nope", "a@", "@b.com"] {
        match validate_user_email(bad) {
            Err(RequestError::ValidationError(msgs)) => {
                assert_eq!(msgs.len(), 1);
                assert_eq!(msgs[0].field.as_deref(), Some("email"));
                assert_eq!(msgs[0].message, "Email address is not valid");
            },
            other => panic!("expected a validation error for {bad:?}, got {other:?}"),
        }
    }
}

#[test]
fn signup_flow_hashes_password_and_sets_cookie() {
    // Signup with email "a@b.com" and password "Secret123!": the stored user
    // carries a hash (never the password), the issued token names the user,
    // and the cookie carries the token with the contracted attributes.
    let cfg = init(
        Some("production".to_string()),
        Some("swift-iss".to_string()),
        Some("swift-aud".to_string()),
        Some(1),
    )
    .unwrap();
    let keys = init_keys(b"signup-secret".to_vec());
    let signup = LoginRequest { email: "a@b.com".to_string(), password: "Secret123!".to_string() };
    assert!(validate_user_email(&signup.email).is_ok());
    let request = convert_to_user_request(signup).unwrap();
    assert_eq!(request.email, "a@b.com");
    let hash = request.password.clone().unwrap();
    assert_ne!(hash, "Secret123!");

    let user = into_swift_user(request, 99, 1_700_000_000);
    assert_eq!(user.id, 99);
    assert_eq!(user.created_at, 1_700_000_000);

    let (claims, token) =
        handle_encode_for_user(user.id, vec![], &cfg, &keys, 1_700_000_000).unwrap();
    let cookie = build_cookie(
        &claims,
        "access_token".to_string(),
        token.clone(),
        "swift-aud".to_string(),
        cfg.run_mode_local,
    );
    assert_eq!(cookie.name, "access_token");
    assert_eq!(cookie.value, token);
    assert_eq!(cookie.path, "/");
    assert!(cookie.http_only);
    assert!(cookie.secure, "non-local mode must set the secure attribute");
    assert_eq!(cookie.expires_unix, claims.exp);

    let back = handle_decode(&token, &cfg, &keys, 1_700_000_000).unwrap();
    assert_eq!(back.org_access, Vec::<u128>::new());
}

#[test]
fn local_mode_cookie_is_not_secure() {
    let cfg = init(
        Some("local".to_string()),
        Some("i".to_string()),
        Some("a".to_string()),
        Some(1),
    )
    .unwrap();
    let keys = init_keys(b"k".to_vec());
    let (claims, token) = handle_encode_for_user(1, vec![], &cfg, &keys, 10).unwrap();
    let cookie = build_cookie(
        &claims,
        "access_token".to_string(),
        token,
        "a".to_string(),
        cfg.run_mode_local,
    );
    assert!(!cookie.secure);
}

#[test]
fn login_flow_checks_credentials_and_grants_organisations() {
    // Login with correct credentials yields a token whose organisation set
    // is exactly what the user may access at login time.
    let cfg = init(
        Some("local".to_string()),
        Some("swift-iss".to_string()),
        Some("swift-aud".to_string()),
        Some(1),
    )
    .unwrap();
    let keys = init_keys(b"login-secret".to_vec());
    let signup = LoginRequest { email: "a@b.com".to_string(), password: "Secret123!".to_string() };
    let request = convert_to_user_request(signup).unwrap();
    let stored = request.password.clone();

    assert!(check_credentials(stored.as_ref(), "Secret123!").is_ok());
    assert_eq!(
        check_credentials(stored.as_ref(), "wrong-password").unwrap_err(),
        ApplicationError::LoginError
    );
    assert_eq!(
        check_credentials(None, "Secret123!").unwrap_err(),
        ApplicationError::LoginError
    );
    let bad_hash = "not-a-phc-record".to_string();
    assert_eq!(
        check_credentials(Some(&bad_hash), "Secret123!").unwrap_err(),
        ApplicationError::InternalServerError
    );

    let organisations = vec![5u128, 6u128];
    let (_, token) =
        handle_encode_for_user(99, organisations.clone(), &cfg, &keys, 1_700_000_000).unwrap();
    let back = handle_decode(&token, &cfg, &keys, 1_700_000_000).unwrap();
    assert_eq!(back.org_access, organisations);
}

#[test]
fn role_gate_admits_only_the_admin_role() {
    assert!(is_admin(Some(1)));
    assert!(!is_admin(Some(2)));
    assert!(!is_admin(Some(0)));
    assert!(!is_admin(None));
}

#[test]
fn organisation_limit_compares_owned_count() {
    assert!(can_create_organisation(0).is_ok());
    match can_create_organisation(1).unwrap_err() {
        ApplicationError::LimitReached(m) => {
            assert_eq!(m, "Only 1 owned organisation per user allowed for this plan.");
        },
        other => panic!("expected LimitReached, got {other:?}"),
    }
    assert!(can_create_organisation(2).is_err());
}

#[test]
fn organisation_creation_binds_owner_as_admin() {
    let request = OrganisationCreateRequest { name: "acme".to_string() };
    let organisation = request.into_with_owner(7, 123, 50);
    assert_eq!(organisation.owner, 7);
    assert_eq!(organisation.id, 123);
    assert!(!organisation.is_archived);
    let binding = admin_binding(7, organisation.id);
    assert_eq!(binding.role_id, 1);
    let member = member_binding(8, organisation.id);
    assert_eq!(member.role_id, 2);
}

#[test]
fn update_and_lookup_outcomes() {
    assert!(update_outcome(1).is_ok());
    assert_eq!(update_outcome(0).unwrap_err(), ApplicationError::NotFound);
    assert_eq!(found_or_not_found(Some(3u64)).unwrap(), 3);
    assert_eq!(
        found_or_not_found::<u64>(None).unwrap_err(),
        ApplicationError::NotFound
    );
}

#[test]
fn user_update_clears_last_name() {
    let put = into_put_swift_user(
        UserPutRequest {
            password: None,
            first_name: "Ada".to_string(),
            last_name: Some("Lovelace".to_string()),
        },
        77,
    );
    assert_eq!(put.first_name, "Ada");
    assert!(put.last_name.is_none());
    assert_eq!(put.updated_at, 77);
}

#[test]
fn error_statuses_follow_the_taxonomy() {
    assert_eq!(AuthenticationError::InvalidToken.status_code(), 401);
    assert_eq!(AuthenticationError::ExpiredToken.status_code(), 401);
    assert_eq!(AuthenticationError::SerializationError.status_code(), 500);
    assert_eq!(ApplicationError::ConflictError.status_code(), 409);
    assert_eq!(ApplicationError::NotFound.status_code(), 404);
    assert_eq!(ApplicationError::LoginError.status_code(), 400);
    assert_eq!(ApplicationError::Unauthorized.status_code(), 401);
    assert_eq!(ApplicationError::Forbidden.status_code(), 403);
    assert_eq!(ApplicationError::LimitReached("x".to_string()).status_code(), 403);
    assert_eq!(ApplicationError::InternalServerError.status_code(), 500);
    assert_eq!(RequestError::HeaderNotFound("h".to_string()).status_code(), 400);
    assert_eq!(RequestError::InvalidUUIDHeaderFormat("h".to_string()).status_code(), 400);
    assert_eq!(RequestError::JsonRejection(422, "bad".to_string()).status_code(), 422);
    assert_eq!(
        ApiError::from(ApplicationError::Forbidden).status_code(),
        403
    );
}

#[test]
fn storage_errors_are_downgraded() {
    assert_eq!(
        ApplicationError::from(DbError::UniqueViolation),
        ApplicationError::ConflictError
    );
    assert_eq!(
        ApplicationError::from(DbError::PoolError),
        ApplicationError::InternalServerError
    );
    assert_eq!(
        ApplicationError::from(DbError::OtherQueryError),
        ApplicationError::InternalServerError
    );
}

#[test]
fn error_response_bodies() {
    let body = ErrorResponse::build(400, "boom".to_string());
    assert_eq!(body.status_code, 400);
    assert_eq!(body.support_contact, "support@swiftapi.com");
    let msgs = body.errors.unwrap();
    assert_eq!(msgs.len(), 1);
    assert!(msgs[0].field.is_none());
    assert_eq!(msgs[0].message, "boom");

    let r = RequestError::HeaderNotFound("x-organisation-id".to_string()).into_error_response();
    assert_eq!(r.status_code, 400);
    assert_eq!(
        r.errors.unwrap()[0].message,
        "Required header x-organisation-id is missing"
    );

    let r = RequestError::InvalidUUIDHeaderFormat("x-organisation-id".to_string())
        .into_error_response();
    assert_eq!(
        r.errors.unwrap()[0].message,
        "Header x-organisation-id must be in UUID format"
    );

    let r = ApplicationError::Unauthorized.into_error_response();
    assert_eq!(r.status_code, 401);
    assert!(r.errors.is_none());

    // A rejected or expired token answers 401 with one general message.
    let r = AuthenticationError::ExpiredToken.into_error_response();
    assert_eq!(r.status_code, 401);
    let msgs = r.errors.unwrap();
    assert_eq!(msgs.len(), 1);
    assert!(msgs[0].field.is_none());
    assert_eq!(msgs[0].message, "Authentication token has expired");

    let r = AuthenticationError::InvalidToken.into_error_response();
    assert_eq!(r.status_code, 401);
    assert_eq!(r.errors.unwrap()[0].message, "Invalid authentication token");

    // Internal faults stay opaque: status only, the bare body.
    let r = AuthenticationError::SerializationError.into_error_response();
    assert_eq!(r.status_code, 500);
    assert!(r.errors.is_none());

    let r = ApplicationError::LimitReached("too many".to_string()).into_error_response();
    assert_eq!(r.status_code, 403);
    assert_eq!(r.errors.unwrap()[0].message, "too many");
}

#[test]
fn config_refuses_missing_or_oversized_values() {
    assert!(init(None, None, Some("a".to_string()), Some(1)).is_none());
    assert!(init(None, Some("i".to_string()), None, Some(1)).is_none());
    assert!(init(None, Some("i".to_string()), Some("a".to_string()), None).is_none());
    assert!(init(None, Some("i\"ss".to_string()), Some("a".to_string()), Some(1)).is_none());
    assert!(init(None, Some("i".to_string()), Some("a".to_string()), Some(u64::MAX)).is_none());
    let cfg = init(None, Some("i".to_string()), Some("a".to_string()), Some(2)).unwrap();
    assert_eq!(cfg.ttl_seconds, 7200);
    assert!(cfg.run_mode_local, "a missing run mode defaults to local");
    let cfg = UserCreateRequest {
        email: "e@x.com".to_string(),
        password: None,
        first_name: "F".to_string(),
        last_name: None,
    };
    // A user created without a password can never log in.
    assert_eq!(
        check_credentials(cfg.password.as_ref(), "anything").unwrap_err(),
        ApplicationError::LoginError
    );
}
