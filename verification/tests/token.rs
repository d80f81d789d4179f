//! The token codec end to end, with the real crypto linked: round trips,
//! expiry, audience and key mismatches, tampering, and interoperability
//! with a standard JWT decoder.

use swift_auth::config::{init, init_keys, AppConfig, Keys};
use swift_auth::errors::AuthenticationError;
use swift_auth::jwt::{handle_decode, handle_encode_for_user, issue, LEEWAY};

fn test_config() -> AppConfig {
    init(
        Some("production".to_string()),
        Some("swift-iss".to_string()),
        Some("swift-aud".to_string()),
        Some(2),
    )
    .expect("config must build")
}

fn test_keys() -> Keys {
    init_keys(b"a-test-signing-secret".to_vec())
}

const USER: u128 = 0x0123456789abcdef0123456789abcdef;
const ORG_A: u128 = 0x00112233445566778899aabbccddeeff;
const ORG_B: u128 = 0xffeeddccbbaa99887766554433221100;
const JTI: u128 = 42;
const NOW: u64 = 1_700_000_000;

#[test]
fn issued_token_verifies_within_window() {
    let cfg = test_config();
    let keys = test_keys();
    let ttl = cfg.ttl_seconds;
    let (claims, token) = issue(USER, vec![ORG_A, ORG_B], &cfg, &keys, NOW, JTI).unwrap();
    assert_eq!(claims.iat, NOW);
    assert_eq!(claims.exp, NOW + ttl);
    // At issuance time, at expiry, and at the leeway's edge.
    for at in [NOW, NOW + ttl, NOW + ttl + LEEWAY] {
        let back = handle_decode(&token, &cfg, &keys, at).expect("must verify");
        assert_eq!(back.sub, claims.sub);
        assert_eq!(back.org_access, vec![ORG_A, ORG_B]);
        assert_eq!(back.iat, NOW);
        assert_eq!(back.exp, NOW + ttl);
        assert_eq!(back.iss, b"swift-iss".to_vec());
        assert_eq!(back.aud, vec![b"swift-aud".to_vec()]);
    }
}

#[test]
fn expired_token_fails_with_expired_token() {
    let cfg = test_config();
    let keys = test_keys();
    let ttl = cfg.ttl_seconds;
    let (_, token) = issue(USER, vec![ORG_A], &cfg, &keys, NOW, JTI).unwrap();
    let r = handle_decode(&token, &cfg, &keys, NOW + ttl + LEEWAY + 1);
    assert_eq!(r.unwrap_err(), AuthenticationError::ExpiredToken);
}

#[test]
fn wrong_audience_fails_with_invalid_token() {
    let cfg = test_config();
    let keys = test_keys();
    let (_, token) = issue(USER, vec![ORG_A], &cfg, &keys, NOW, JTI).unwrap();
    let other = init(
        Some("production".to_string()),
        Some("swift-iss".to_string()),
        Some("another-aud".to_string()),
        Some(2),
    )
    .unwrap();
    let r = handle_decode(&token, &other, &keys, NOW);
    assert_eq!(r.unwrap_err(), AuthenticationError::InvalidToken);
}

#[test]
fn wrong_issuer_fails_with_invalid_token() {
    let cfg = test_config();
    let keys = test_keys();
    let (_, token) = issue(USER, vec![ORG_A], &cfg, &keys, NOW, JTI).unwrap();
    let other = init(
        Some("production".to_string()),
        Some("another-iss".to_string()),
        Some("swift-aud".to_string()),
        Some(2),
    )
    .unwrap();
    let r = handle_decode(&token, &other, &keys, NOW);
    assert_eq!(r.unwrap_err(), AuthenticationError::InvalidToken);
}

#[test]
fn wrong_key_fails_with_invalid_token() {
    let cfg = test_config();
    let keys = test_keys();
    let (_, token) = issue(USER, vec![ORG_A], &cfg, &keys, NOW, JTI).unwrap();
    let other_keys = init_keys(b"a-different-secret".to_vec());
    let r = handle_decode(&token, &cfg, &other_keys, NOW);
    assert_eq!(r.unwrap_err(), AuthenticationError::InvalidToken);
}

#[test]
fn tampered_payload_fails_with_invalid_token() {
    let cfg = test_config();
    let keys = test_keys();
    let (_, token) = issue(USER, vec![ORG_A], &cfg, &keys, NOW, JTI).unwrap();
    let first_dot = token.find('.').unwrap();
    let second_dot = first_dot + 1 + token[first_dot + 1..].find('.').unwrap();
    // Flip every byte of the payload segment in turn; no tampering survives.
    let bytes = token.as_bytes();
    for i in (first_dot + 1)..second_dot {
        let mut tampered = bytes.to_vec();
        tampered[i] = if tampered[i] == b'A' { b'B' } else { b'A' };
        if tampered[i] == bytes[i] {
            continue;
        }
        let tampered = String::from_utf8(tampered).unwrap();
        let r = handle_decode(&tampered, &cfg, &keys, NOW);
        assert_eq!(r.unwrap_err(), AuthenticationError::InvalidToken, "position {i}");
    }
}

#[test]
fn garbage_tokens_fail_with_invalid_token() {
    let cfg = test_config();
    let keys = test_keys();
    for bad in ["", "abc", "a.b", "a.b.c", "..", "e30.e30.e30"] {
        let r = handle_decode(bad, &cfg, &keys, NOW);
        assert_eq!(r.unwrap_err(), AuthenticationError::InvalidToken, "token {bad:?}");
    }
}

#[test]
fn random_jti_token_verifies() {
    let cfg = test_config();
    let keys = test_keys();
    let (claims, token) = handle_encode_for_user(USER, vec![ORG_A], &cfg, &keys, NOW).unwrap();
    let back = handle_decode(&token, &cfg, &keys, NOW).unwrap();
    assert_eq!(back.jti, claims.jti);
    assert_eq!(back.org_access, vec![ORG_A]);
}

#[test]
fn standard_decoder_accepts_issued_token() {
    // The token must be a plain JWT: a standard decoder with the same key,
    // audience and algorithm accepts it and sees the same claims.
    let cfg = test_config();
    let keys = test_keys();
    let (claims, token) = issue(USER, vec![ORG_A], &cfg, &keys, NOW, JTI).unwrap();

    let mut validation = jsonwebtoken::Validation::new(jsonwebtoken::Algorithm::HS256);
    validation.set_audience(&["swift-aud"]);
    validation.validate_exp = false;
    let decoding_key = jsonwebtoken::DecodingKey::from_secret(b"a-test-signing-secret");
    let data = jsonwebtoken::decode::<serde_json::Value>(&token, &decoding_key, &validation)
        .expect("a standard decoder must accept the token");
    let sub = data.claims.get("sub").unwrap().as_str().unwrap();
    assert_eq!(sub.as_bytes().to_vec(), claims.sub);
    assert_eq!(
        data.claims.get("exp").unwrap().as_u64().unwrap(),
        NOW + cfg.ttl_seconds
    );
    let orgs = data.claims.get("org_access").unwrap().as_array().unwrap();
    assert_eq!(orgs.len(), 1);
    assert_eq!(
        orgs[0].as_str().unwrap(),
        uuid::Uuid::from_u128(ORG_A).hyphenated().to_string()
    );
}

#[test]
fn subject_is_the_canonical_uuid_text() {
    let cfg = test_config();
    let keys = test_keys();
    let (claims, _) = issue(USER, vec![], &cfg, &keys, NOW, JTI).unwrap();
    assert_eq!(
        String::from_utf8(claims.sub.clone()).unwrap(),
        uuid::Uuid::from_u128(USER).hyphenated().to_string()
    );
}

#[test]
fn issuance_is_total() {
    // Issuance never fails: an empty secret, an empty organisation list and
    // extreme instants all still yield a token.
    let cfg = test_config();
    let keys = init_keys(Vec::new());
    assert!(issue(USER, vec![], &cfg, &keys, 0, 0).is_ok());
    assert!(issue(0, vec![], &cfg, &keys, u64::MAX - cfg.ttl_seconds, u128::MAX).is_ok());
}
