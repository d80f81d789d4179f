//! The token codec: issuance and verification of signed session tokens.
//! A token is three dot-separated base64url segments — the fixed HS256
//! header, the claims' JSON, and the HMAC-SHA256 tag over the first two —
//! signed and checked with the process-wide symmetric key.

use vstd::prelude::*;
use crate::b64::{spec_b64, spec_b64_decode};
use crate::claims::{
    emit_claims, parse_claims, spec_claims_json, spec_parse_claims, Claims, ClaimsModel,
};
use crate::config::{json_safe, AppConfig};
use crate::config::Keys;
use crate::errors::AuthenticationError;
use crate::uuidfmt::spec_uuid_str;

verus! {

/// The clock-skew window, in seconds, tolerated when checking expiry.
pub const LEEWAY: u64 = 10;

/// The one accepted header: `{"alg":"HS256","typ":"JWT"}`.
pub open spec fn header_json() -> Seq<u8> {
    seq![
        0x7bu8, 0x22, 0x61, 0x6c, 0x67, 0x22, 0x3a, 0x22, 0x48, 0x53, 0x32, 0x35, 0x36, 0x22, 0x2c,
        0x22, 0x74, 0x79, 0x70, 0x22, 0x3a, 0x22, 0x4a, 0x57, 0x54, 0x22, 0x7d,
    ]
}

/// The base64url text of the HMAC-SHA256 tag of `message` under `secret`,
/// as the signing primitive computes it: a function of the two alone.
pub uninterp spec fn hs256_sig_of(secret: Seq<u8>, message: Seq<u8>) -> Seq<u8>;

/// Relies on `jsonwebtoken::crypto::sign` with `Algorithm::HS256` and a key
/// from `EncodingKey::from_secret`: the returned text is the base64url
/// HMAC-SHA256 tag of the message under the secret, determined by the two
/// arguments alone, every byte in the base64url alphabet. Signing never
/// fails on this path: the HMAC signer accepts keys of any length and its
/// signing step is infallible.
#[verifier::external_body]
fn sign_hs256(secret: &[u8], message: &[u8]) -> (r: Option<Vec<u8>>)
    ensures
        r is Some,
        r matches Some(v) ==> v@ == hs256_sig_of(secret@, message@),
        r matches Some(v) ==> forall|i: int|
            0 <= i < v@.len() ==> #[trigger] crate::b64::b64_val(v@[i]) is Some,
{
    let key = jsonwebtoken::EncodingKey::from_secret(secret);
    match jsonwebtoken::crypto::sign(message, &key, jsonwebtoken::Algorithm::HS256) {
        Ok(s) => Some(s.into_bytes()),
        Err(_) => None,
    }
}

/// Relies on `jsonwebtoken::crypto::verify` with `Algorithm::HS256` and a
/// key from `DecodingKey::from_secret`: it recomputes the HMAC-SHA256 tag
/// and accepts exactly its canonical base64url text (the decoder refuses
/// padding and set trailing bits, so no other text decodes to the tag).
/// Text that is not UTF-8 cannot equal the tag's ASCII text.
#[verifier::external_body]
fn verify_hs256(secret: &[u8], message: &[u8], signature: &[u8]) -> (r: bool)
    ensures
        r == (signature@ == hs256_sig_of(secret@, message@)),
{
    let sig = match core::str::from_utf8(signature) {
        Ok(s) => s,
        Err(_) => {
            return false;
        },
    };
    let key = jsonwebtoken::DecodingKey::from_secret(secret);
    match jsonwebtoken::crypto::verify(sig, message, &key, jsonwebtoken::Algorithm::HS256) {
        Ok(b) => b,
        Err(_) => false,
    }
}

/// Relies on `uuid::Uuid::new_v4` for a fresh random identifier; nothing is
/// promised of its value.
#[verifier::external_body]
pub(crate) fn new_random_id() -> (r: u128) {
    uuid::Uuid::new_v4().as_u128()
}

/// Relies on `String::from_utf8`: it accepts exactly valid UTF-8, and the
/// returned string's UTF-8 encoding is the given bytes.
#[verifier::external_body]
pub(crate) fn bytes_to_string(v: Vec<u8>) -> (r: Option<String>)
    ensures
        r matches Some(s) ==> vstd::utf8::encode_utf8(s@) == v@,
        vstd::utf8::valid_utf8(v@) ==> r is Some,
{
    match String::from_utf8(v) {
        Ok(s) => Some(s),
        Err(_) => None,
    }
}

/// Bytes below 0x80 are one-byte scalars, so an ASCII byte string is valid
/// UTF-8.
pub proof fn lemma_ascii_valid_utf8(v: Seq<u8>)
    requires
        forall|i: int| 0 <= i < v.len() ==> #[trigger] v[i] < 0x80,
    ensures
        vstd::utf8::valid_utf8(v),
    decreases v.len(),
{
    if v.len() > 0 {
        assert(vstd::utf8::is_leading_byte_width_1(v[0]));
        assert(vstd::utf8::valid_first_scalar(v));
        assert(vstd::utf8::length_of_first_scalar(v) == 1);
        let rest = vstd::utf8::pop_first_scalar(v);
        assert(rest =~= v.skip(1));
        lemma_ascii_valid_utf8(rest);
    }
}

/// The token text of signed claims under `secret`.
pub open spec fn token_of(secret: Seq<u8>, c: ClaimsModel) -> Seq<u8> {
    spec_b64(header_json()) + seq![0x2eu8] + spec_b64(spec_claims_json(c)) + seq![0x2eu8]
        + hs256_sig_of(secret, spec_b64(header_json()) + seq![0x2eu8] + spec_b64(spec_claims_json(c)))
}

/// The claims issued at `now` for a user and the organisations granted.
pub open spec fn spec_issued_claims(
    user_id: u128,
    orgs: Seq<u128>,
    iss: Seq<u8>,
    aud: Seq<u8>,
    now: u64,
    ttl: u64,
    jti: u128,
) -> ClaimsModel {
    ClaimsModel {
        jti: spec_uuid_str(jti),
        sub: spec_uuid_str(user_id),
        iss: iss,
        aud: seq![aud],
        iat: now,
        exp: (now + ttl) as u64,
        org_access: orgs,
    }
}

/// The first position at or after `i` holding `b`, or the text's end.
pub open spec fn find_byte(s: Seq<u8>, i: int, b: u8) -> int
    decreases s.len() - i,
    when 0 <= i <= s.len()
{
    if i >= s.len() || s[i] == b {
        i
    } else {
        find_byte(s, i + 1, b)
    }
}

/// Whether a token issued with this expiry is out of date at `now`, the
/// leeway granted.
pub open spec fn spec_expired(exp: u64, now: u64) -> bool {
    now > exp + LEEWAY
}

/// What verification decides for a token's text: split on the first two
/// dots; the signature must be the tag of everything before the second dot;
/// the header must be the one accepted header; the payload must read as
/// claims; the expiry check (with leeway) fails as `ExpiredToken`; an
/// audience list missing the configured audience, or an issuer other than
/// the configured one — like every other defect — fails as `InvalidToken`.
pub open spec fn spec_verify(
    secret: Seq<u8>,
    iss: Seq<u8>,
    aud: Seq<u8>,
    now: u64,
    token: Seq<u8>,
) -> Result<ClaimsModel, AuthenticationError> {
    let d1 = find_byte(token, 0, 0x2e);
    if d1 >= token.len() {
        Err(AuthenticationError::InvalidToken)
    } else {
        let d2 = find_byte(token, d1 + 1, 0x2e);
        if d2 >= token.len() {
            Err(AuthenticationError::InvalidToken)
        } else {
            let message = token.subrange(0, d2);
            let sig = token.subrange(d2 + 1, token.len() as int);
            if sig != hs256_sig_of(secret, message) {
                Err(AuthenticationError::InvalidToken)
            } else {
                match spec_b64_decode(token.subrange(0, d1)) {
                    None => Err(AuthenticationError::InvalidToken),
                    Some(h) => if h != header_json() {
                        Err(AuthenticationError::InvalidToken)
                    } else {
                        match spec_b64_decode(token.subrange(d1 + 1, d2)) {
                            None => Err(AuthenticationError::InvalidToken),
                            Some(p) => match spec_parse_claims(p) {
                                None => Err(AuthenticationError::InvalidToken),
                                Some(c) => if spec_expired(c.exp, now) {
                                    Err(AuthenticationError::ExpiredToken)
                                } else if !c.aud.contains(aud) {
                                    Err(AuthenticationError::InvalidToken)
                                } else if c.iss != iss {
                                    Err(AuthenticationError::InvalidToken)
                                } else {
                                    Ok(c)
                                },
                            },
                        }
                    },
                }
            }
        }
    }
}

/// Whether two byte strings hold the same bytes.
fn bytes_eq(a: &[u8], b: &[u8]) -> (r: bool)
    ensures
        r == (a@ == b@),
{
    let n = a.len();
    if n != b.len() {
        proof {
            assert(a@ != b@);
        }
        return false;
    }
    let mut i: usize = 0;
    while i < n
        invariant
            0 <= i <= n,
            n == a@.len(),
            n == b@.len(),
            forall|j: int| 0 <= j < i ==> a@[j] == b@[j],
        decreases n - i,
    {
        if a[i] != b[i] {
            return false;
        }
        i += 1;
    }
    proof {
        assert(a@ =~= b@);
    }
    true
}

/// The first position at or after `i` holding `b`, or the text's end.
fn find_byte_exec(s: &[u8], i: usize, b: u8) -> (r: usize)
    requires
        i <= s@.len(),
    ensures
        r == find_byte(s@, i as int, b),
        i <= r <= s@.len(),
{
    let n = s.len();
    let mut j: usize = i;
    while j < n && s[j] != b
        invariant
            i <= j <= n,
            n == s@.len(),
            find_byte(s@, i as int, b) == find_byte(s@, j as int, b),
        decreases n - j,
    {
        j += 1;
    }
    j
}

/// Builds the claims issued at `now` and their signed token.
///
/// The token is exactly [`token_of`] for those claims, and issuance is
/// total: the HMAC primitive signs every input and its tag is base64url
/// text, so the token always assembles.
pub fn issue(
    user_id: u128,
    organisation_ids: Vec<u128>,
    cfg: &AppConfig,
    keys: &Keys,
    now: u64,
    jti: u128,
) -> (r: Result<(Claims, String), AuthenticationError>)
    requires
        cfg.wf(),
        now + cfg.ttl_seconds <= u64::MAX,
    ensures
        r is Ok,
        match r {
            Ok((claims, token)) => {
                &&& claims@ == spec_issued_claims(
                    user_id,
                    organisation_ids@,
                    vstd::utf8::encode_utf8(cfg.iss@),
                    vstd::utf8::encode_utf8(cfg.aud@),
                    now,
                    cfg.ttl_seconds,
                    jti,
                )
                &&& claims@.wf()
                &&& vstd::utf8::encode_utf8(token@) == token_of(keys.secret@, claims@)
            },
            Err(e) => e is SerializationError,
        },
{
    proof {
        broadcast use vstd::string::is_ascii_spec_bytes;
        broadcast use vstd::utf8::is_ascii_chars_encode_utf8;

    }
    let jti_text = crate::uuidfmt::format_uuid(jti);
    let sub_text = crate::uuidfmt::format_uuid(user_id);
    let iss_text = cfg.iss.as_str().as_bytes_vec();
    let aud_text = cfg.aud.as_str().as_bytes_vec();
    let mut aud: Vec<Vec<u8>> = Vec::new();
    aud.push(aud_text);
    let claims = Claims {
        jti: jti_text,
        sub: sub_text,
        iss: iss_text,
        aud,
        iat: now,
        exp: now + cfg.ttl_seconds,
        org_access: organisation_ids,
    };
    proof {
        crate::claims::lemma_uuid_str_json_safe(jti);
        crate::claims::lemma_uuid_str_json_safe(user_id);
        assert(vstd::utf8::encode_utf8(cfg.iss@) =~= crate::config::char_bytes(cfg.iss@));
        assert(vstd::utf8::encode_utf8(cfg.aud@) =~= crate::config::char_bytes(cfg.aud@));
        assert(json_safe(vstd::utf8::encode_utf8(cfg.iss@)));
        assert(json_safe(vstd::utf8::encode_utf8(cfg.aud@)));
        assert(crate::claims::seq_views(claims.aud@) =~= seq![
            vstd::utf8::encode_utf8(cfg.aud@),
        ]);
        assert(claims@ == spec_issued_claims(
            user_id,
            claims.org_access@,
            vstd::utf8::encode_utf8(cfg.iss@),
            vstd::utf8::encode_utf8(cfg.aud@),
            now,
            cfg.ttl_seconds,
            jti,
        ));
    }
    let payload = emit_claims(&claims);
    let header: [u8; 27] = [
        0x7b,
        0x22,
        0x61,
        0x6c,
        0x67,
        0x22,
        0x3a,
        0x22,
        0x48,
        0x53,
        0x32,
        0x35,
        0x36,
        0x22,
        0x2c,
        0x22,
        0x74,
        0x79,
        0x70,
        0x22,
        0x3a,
        0x22,
        0x4a,
        0x57,
        0x54,
        0x22,
        0x7d,
    ];
    proof {
        assert(header@ =~= header_json());
    }
    let mut message = crate::b64::b64_encode(header.as_slice());
    message.push(0x2e);
    let mut payload_b64 = crate::b64::b64_encode(payload.as_slice());
    message.append(&mut payload_b64);
    let ghost message_model = spec_b64(header_json()) + seq![0x2eu8] + spec_b64(
        spec_claims_json(claims@),
    );
    proof {
        assert(message@ =~= message_model);
    }
    let sig = match sign_hs256(keys.secret.as_slice(), message.as_slice()) {
        Some(s) => s,
        None => {
            proof {
                assert(false);
            }
            return Err(AuthenticationError::SerializationError);
        },
    };
    let ghost sig_model = sig@;
    let mut token_bytes = message;
    token_bytes.push(0x2e);
    let mut sig_bytes = sig;
    token_bytes.append(&mut sig_bytes);
    proof {
        assert(token_bytes@ =~= token_of(keys.secret@, claims@));
        crate::b64::lemma_b64_alphabet(header_json());
        crate::b64::lemma_b64_alphabet(spec_claims_json(claims@));
        let h = spec_b64(header_json());
        let p = spec_b64(spec_claims_json(claims@));
        assert(token_bytes@ =~= message_model + seq![0x2eu8] + sig_model);
        assert forall|i: int| 0 <= i < token_bytes@.len() implies #[trigger] token_bytes@[i]
            < 0x80 by {
            if i < h.len() {
                assert(token_bytes@[i] == h[i]);
                assert(crate::b64::b64_val(h[i]) is Some);
            } else if i == h.len() {
                assert(token_bytes@[i] == 0x2e);
            } else if i < message_model.len() {
                assert(token_bytes@[i] == p[i - h.len() - 1]);
                assert(crate::b64::b64_val(p[i - h.len() - 1]) is Some);
            } else if i == message_model.len() {
                assert(token_bytes@[i] == 0x2e);
            } else {
                assert(token_bytes@[i] == sig_model[i - message_model.len() - 1]);
                assert(crate::b64::b64_val(sig_model[i - message_model.len() - 1]) is Some);
            }
        }
        lemma_ascii_valid_utf8(token_bytes@);
    }
    match bytes_to_string(token_bytes) {
        Some(token) => Ok((claims, token)),
        None => {
            proof {
                assert(false);
            }
            Err(AuthenticationError::SerializationError)
        },
    }
}

/// Issues a token with a fresh random audit identifier, as login and signup
/// do; like [`issue`], it always succeeds.
pub fn handle_encode_for_user(
    user_id: u128,
    organisations: Vec<u128>,
    cfg: &AppConfig,
    keys: &Keys,
    now: u64,
) -> (r: Result<(Claims, String), AuthenticationError>)
    requires
        cfg.wf(),
        now + cfg.ttl_seconds <= u64::MAX,
    ensures
        r is Ok,
        match r {
            Ok((claims, token)) => {
                &&& (exists|jti: u128|
                    claims@ == spec_issued_claims(
                        user_id,
                        organisations@,
                        vstd::utf8::encode_utf8(cfg.iss@),
                        vstd::utf8::encode_utf8(cfg.aud@),
                        now,
                        cfg.ttl_seconds,
                        jti,
                    ))
                &&& claims@.wf()
                &&& vstd::utf8::encode_utf8(token@) == token_of(keys.secret@, claims@)
            },
            Err(e) => e is SerializationError,
        },
{
    let jti = new_random_id();
    let r = issue(user_id, organisations, cfg, keys, now, jti);
    proof {
        match &r {
            Ok((claims, token)) => {
                assert(claims@ == spec_issued_claims(
                    user_id,
                    organisations@,
                    vstd::utf8::encode_utf8(cfg.iss@),
                    vstd::utf8::encode_utf8(cfg.aud@),
                    now,
                    cfg.ttl_seconds,
                    jti,
                ));
            },
            Err(_) => {},
        }
    }
    r
}

/// Verifies a token's text at time `now`, deciding exactly as
/// [`spec_verify`] says: `ExpiredToken` when only the expiry check fails,
/// `InvalidToken` for every other defect, wrong issuer and audience
/// included. Only the payload layout the issuer writes is accepted: a token
/// carrying the same claims in another JSON layout is refused as invalid.
pub fn handle_decode(token: &str, cfg: &AppConfig, keys: &Keys, now: u64) -> (r: Result<
    Claims,
    AuthenticationError,
>)
    ensures
        match r {
            Ok(c) => spec_verify(
                keys.secret@,
                vstd::utf8::encode_utf8(cfg.iss@),
                vstd::utf8::encode_utf8(cfg.aud@),
                now,
                vstd::utf8::encode_utf8(token@),
            ) == Ok::<ClaimsModel, AuthenticationError>(c@),
            Err(e) => spec_verify(
                keys.secret@,
                vstd::utf8::encode_utf8(cfg.iss@),
                vstd::utf8::encode_utf8(cfg.aud@),
                now,
                vstd::utf8::encode_utf8(token@),
            ) == Err::<ClaimsModel, AuthenticationError>(e),
        },
{
    let bytes = token.as_bytes();
    let ghost t = vstd::utf8::encode_utf8(token@);
    proof {
        assert(bytes@ == t);
    }
    let n = bytes.len();
    let d1 = find_byte_exec(bytes, 0, 0x2e);
    if d1 >= n {
        return Err(AuthenticationError::InvalidToken);
    }
    let d2 = find_byte_exec(bytes, d1 + 1, 0x2e);
    if d2 >= n {
        return Err(AuthenticationError::InvalidToken);
    }
    let message = vstd::slice::slice_subrange(bytes, 0, d2);
    let sig = vstd::slice::slice_subrange(bytes, d2 + 1, n);
    if !verify_hs256(keys.secret.as_slice(), message, sig) {
        return Err(AuthenticationError::InvalidToken);
    }
    let header_seg = vstd::slice::slice_subrange(bytes, 0, d1);
    let header = match crate::b64::b64_decode(header_seg) {
        Some(h) => h,
        None => {
            return Err(AuthenticationError::InvalidToken);
        },
    };
    let expected_header: [u8; 27] = [
        0x7b,
        0x22,
        0x61,
        0x6c,
        0x67,
        0x22,
        0x3a,
        0x22,
        0x48,
        0x53,
        0x32,
        0x35,
        0x36,
        0x22,
        0x2c,
        0x22,
        0x74,
        0x79,
        0x70,
        0x22,
        0x3a,
        0x22,
        0x4a,
        0x57,
        0x54,
        0x22,
        0x7d,
    ];
    proof {
        assert(expected_header@ =~= header_json());
    }
    if !bytes_eq(header.as_slice(), expected_header.as_slice()) {
        return Err(AuthenticationError::InvalidToken);
    }
    let payload_seg = vstd::slice::slice_subrange(bytes, d1 + 1, d2);
    let payload = match crate::b64::b64_decode(payload_seg) {
        Some(p) => p,
        None => {
            return Err(AuthenticationError::InvalidToken);
        },
    };
    let claims = match parse_claims(payload.as_slice()) {
        Some(c) => c,
        None => {
            return Err(AuthenticationError::InvalidToken);
        },
    };
    if now > LEEWAY && now - LEEWAY > claims.exp {
        return Err(AuthenticationError::ExpiredToken);
    }
    proof {
        assert(!spec_expired(claims@.exp, now));
    }
    let aud_text = cfg.aud.as_str().as_bytes_vec();
    let mut found: bool = false;
    let m = claims.aud.len();
    let mut k: usize = 0;
    while k < m
        invariant
            0 <= k <= m,
            m == claims.aud@.len(),
            aud_text@ == vstd::utf8::encode_utf8(cfg.aud@),
            found == exists|j: int|
                0 <= j < k && crate::claims::seq_views(claims.aud@)[j] == aud_text@,
        decreases m - k,
    {
        if bytes_eq(claims.aud[k].as_slice(), aud_text.as_slice()) {
            proof {
                assert(crate::claims::seq_views(claims.aud@)[k as int] == aud_text@);
            }
            found = true;
        }
        k += 1;
    }
    if !found {
        proof {
            assert(!claims@.aud.contains(vstd::utf8::encode_utf8(cfg.aud@)));
        }
        return Err(AuthenticationError::InvalidToken);
    }
    proof {
        assert(claims@.aud.contains(vstd::utf8::encode_utf8(cfg.aud@)));
    }
    let iss_text = cfg.iss.as_str().as_bytes_vec();
    if !bytes_eq(claims.iss.as_slice(), iss_text.as_slice()) {
        return Err(AuthenticationError::InvalidToken);
    }
    Ok(claims)
}

} // verus!
// The token laws: what verification decides about every issued token.
verus! {

/// Base64url text never contains a dot.
proof fn lemma_b64_no_dot(s: Seq<u8>)
    ensures
        forall|k: int| 0 <= k < spec_b64(s).len() ==> #[trigger] spec_b64(s)[k] != 0x2e,
    decreases s.len(),
{
    if s.len() >= 3 {
        lemma_b64_no_dot(s.skip(3));
        assert forall|k: int| 0 <= k < spec_b64(s).len() implies #[trigger] spec_b64(s)[k]
            != 0x2e by {
            if k >= 4 {
                assert(spec_b64(s)[k] == spec_b64(s.skip(3))[k - 4]);
            }
        }
    }
}

/// A dot right after a dot-free run is the first dot found.
proof fn lemma_find_byte_after_run(s: Seq<u8>, i: int, run: Seq<u8>)
    requires
        0 <= i,
        i + run.len() < s.len(),
        s.subrange(i, i + run.len() as int) == run,
        forall|k: int| 0 <= k < run.len() ==> #[trigger] run[k] != 0x2e,
        s[i + run.len()] == 0x2e,
    ensures
        find_byte(s, i, 0x2e) == i + run.len(),
    decreases run.len(),
{
    if run.len() == 0 {
        assert(s[i] == 0x2e);
    } else {
        assert(s[i] == s.subrange(i, i + run.len() as int)[0]);
        assert(s[i] != 0x2e);
        let rest = run.drop_first();
        assert forall|t: int| 0 <= t < rest.len() implies s.subrange(
            i + 1,
            i + run.len() as int,
        )[t] == rest[t] by {
            assert(s.subrange(i, i + run.len() as int)[t + 1] == run[t + 1]);
        }
        assert(s.subrange(i + 1, i + run.len() as int) =~= rest);
        assert(forall|k: int| 0 <= k < rest.len() ==> #[trigger] rest[k] != 0x2e);
        lemma_find_byte_after_run(s, i + 1, rest);
    }
}

/// What verification decides about the token of well-formed claims, under
/// any verification key, issuer and audience: a wrong signature is
/// `InvalidToken`; then expiry, then audience, then issuer, then
/// acceptance.
proof fn lemma_verify_token_of(
    secret_sign: Seq<u8>,
    secret_verify: Seq<u8>,
    c: ClaimsModel,
    iss: Seq<u8>,
    aud: Seq<u8>,
    now: u64,
)
    requires
        c.wf(),
    ensures
        ({
            let msg = spec_b64(header_json()) + seq![0x2eu8] + spec_b64(spec_claims_json(c));
            spec_verify(secret_verify, iss, aud, now, token_of(secret_sign, c)) == (
            if hs256_sig_of(secret_sign, msg) != hs256_sig_of(secret_verify, msg) {
                Err::<ClaimsModel, AuthenticationError>(AuthenticationError::InvalidToken)
            } else if spec_expired(c.exp, now) {
                Err::<ClaimsModel, AuthenticationError>(AuthenticationError::ExpiredToken)
            } else if !c.aud.contains(aud) {
                Err::<ClaimsModel, AuthenticationError>(AuthenticationError::InvalidToken)
            } else if c.iss != iss {
                Err::<ClaimsModel, AuthenticationError>(AuthenticationError::InvalidToken)
            } else {
                Ok::<ClaimsModel, AuthenticationError>(c)
            })
        }),
{
    let h = spec_b64(header_json());
    let p = spec_b64(spec_claims_json(c));
    let dot = seq![0x2eu8];
    let sig = hs256_sig_of(secret_sign, h + dot + p);
    let t = token_of(secret_sign, c);
    let g1 = h + dot;
    let g2 = g1 + p;
    let g3 = g2 + dot;
    assert(t == g3 + sig);
    assert(t.subrange(0, t.len() as int) =~= t);
    crate::claims::lemma_prefix_step(t, g3, sig);
    crate::claims::lemma_prefix_step(t, g2, dot);
    crate::claims::lemma_prefix_step(t, g1, p);
    crate::claims::lemma_prefix_step(t, h, dot);
    lemma_b64_no_dot(header_json());
    lemma_b64_no_dot(spec_claims_json(c));
    assert(t[h.len() as int] == t.subrange(h.len() as int, g1.len() as int)[0]);
    assert(t[h.len() as int] == 0x2e);
    lemma_find_byte_after_run(t, 0, h);
    let d1 = h.len() as int;
    assert(find_byte(t, 0, 0x2e) == d1);
    assert(t[g2.len() as int] == t.subrange(g2.len() as int, g3.len() as int)[0]);
    assert(t[g2.len() as int] == 0x2e);
    assert(t.subrange(d1 + 1, d1 + 1 + p.len() as int) == p);
    lemma_find_byte_after_run(t, d1 + 1, p);
    let d2 = g2.len() as int;
    assert(find_byte(t, d1 + 1, 0x2e) == d2);
    assert(t.subrange(0, d2) =~= h + dot + p);
    assert(t.subrange(d2 + 1, t.len() as int) == sig);
    crate::b64::lemma_b64_round_trip(header_json());
    crate::b64::lemma_b64_round_trip(spec_claims_json(c));
    crate::claims::lemma_claims_round_trip(c);
    assert(t.subrange(0, d1) == h);
    assert(t.subrange(d1 + 1, d2) == p);
}

/// A token issued for a user and organisation set verifies, any time until
/// its expiry plus the leeway, under the key that signed it and the issuer
/// and audience it names — and yields back exactly the claims issued: the
/// same user and the same organisations.
pub proof fn lemma_issue_verify_round_trip(
    secret: Seq<u8>,
    iss: Seq<u8>,
    aud: Seq<u8>,
    user_id: u128,
    orgs: Seq<u128>,
    now: u64,
    ttl: u64,
    jti: u128,
    later: u64,
)
    requires
        json_safe(iss),
        json_safe(aud),
        now + ttl <= u64::MAX,
        later <= now + ttl + LEEWAY,
    ensures
        ({
            let c = spec_issued_claims(user_id, orgs, iss, aud, now, ttl, jti);
            &&& spec_verify(secret, iss, aud, later, token_of(secret, c)) == Ok::<
                ClaimsModel,
                AuthenticationError,
            >(c)
            &&& crate::uuidfmt::spec_parse_uuid(c.sub) == Some(user_id)
            &&& c.org_access == orgs
        }),
{
    let c = spec_issued_claims(user_id, orgs, iss, aud, now, ttl, jti);
    lemma_issued_claims_wf(user_id, orgs, iss, aud, now, ttl, jti);
    lemma_verify_token_of(secret, secret, c, iss, aud, later);
    assert(c.aud.contains(aud)) by {
        assert(c.aud[0] == aud);
    }
    crate::uuidfmt::lemma_uuid_round_trip(user_id);
}

/// Issued claims are well-formed whenever issuer and audience are safe
/// text.
proof fn lemma_issued_claims_wf(
    user_id: u128,
    orgs: Seq<u128>,
    iss: Seq<u8>,
    aud: Seq<u8>,
    now: u64,
    ttl: u64,
    jti: u128,
)
    requires
        json_safe(iss),
        json_safe(aud),
    ensures
        spec_issued_claims(user_id, orgs, iss, aud, now, ttl, jti).wf(),
{
    crate::claims::lemma_uuid_str_json_safe(user_id);
    crate::claims::lemma_uuid_str_json_safe(jti);
    let c = spec_issued_claims(user_id, orgs, iss, aud, now, ttl, jti);
    assert forall|k: int| 0 <= k < c.aud.len() implies json_safe(#[trigger] c.aud[k]) by {
        assert(c.aud[k] == aud);
    }
}

/// Past the expiry plus the leeway, verification of an issued token fails
/// with exactly `ExpiredToken`.
pub proof fn lemma_expired_token_rejected(
    secret: Seq<u8>,
    iss: Seq<u8>,
    aud: Seq<u8>,
    user_id: u128,
    orgs: Seq<u128>,
    now: u64,
    ttl: u64,
    jti: u128,
    later: u64,
)
    requires
        json_safe(iss),
        json_safe(aud),
        now + ttl <= u64::MAX,
        later > now + ttl + LEEWAY,
    ensures
        spec_verify(
            secret,
            iss,
            aud,
            later,
            token_of(secret, spec_issued_claims(user_id, orgs, iss, aud, now, ttl, jti)),
        ) == Err::<ClaimsModel, AuthenticationError>(AuthenticationError::ExpiredToken),
{
    let c = spec_issued_claims(user_id, orgs, iss, aud, now, ttl, jti);
    lemma_issued_claims_wf(user_id, orgs, iss, aud, now, ttl, jti);
    lemma_verify_token_of(secret, secret, c, iss, aud, later);
}

/// A token whose audience list does not name the configured audience fails
/// verification with `InvalidToken`, even in its validity window.
pub proof fn lemma_wrong_audience_rejected(
    secret: Seq<u8>,
    iss: Seq<u8>,
    aud: Seq<u8>,
    other_aud: Seq<u8>,
    user_id: u128,
    orgs: Seq<u128>,
    now: u64,
    ttl: u64,
    jti: u128,
    later: u64,
)
    requires
        json_safe(iss),
        json_safe(aud),
        other_aud != aud,
        now + ttl <= u64::MAX,
        later <= now + ttl + LEEWAY,
    ensures
        spec_verify(
            secret,
            iss,
            other_aud,
            later,
            token_of(secret, spec_issued_claims(user_id, orgs, iss, aud, now, ttl, jti)),
        ) == Err::<ClaimsModel, AuthenticationError>(AuthenticationError::InvalidToken),
{
    let c = spec_issued_claims(user_id, orgs, iss, aud, now, ttl, jti);
    lemma_issued_claims_wf(user_id, orgs, iss, aud, now, ttl, jti);
    lemma_verify_token_of(secret, secret, c, iss, other_aud, later);
    assert(!c.aud.contains(other_aud)) by {
        assert forall|k: int| 0 <= k < c.aud.len() implies c.aud[k] != other_aud by {
            assert(c.aud[k] == aud);
        }
    }
}

/// A token naming another issuer fails verification with `InvalidToken`,
/// even in its validity window and with the right key and audience.
pub proof fn lemma_wrong_issuer_rejected(
    secret: Seq<u8>,
    iss: Seq<u8>,
    other_iss: Seq<u8>,
    aud: Seq<u8>,
    user_id: u128,
    orgs: Seq<u128>,
    now: u64,
    ttl: u64,
    jti: u128,
    later: u64,
)
    requires
        json_safe(iss),
        json_safe(aud),
        other_iss != iss,
        now + ttl <= u64::MAX,
        later <= now + ttl + LEEWAY,
    ensures
        spec_verify(
            secret,
            other_iss,
            aud,
            later,
            token_of(secret, spec_issued_claims(user_id, orgs, iss, aud, now, ttl, jti)),
        ) == Err::<ClaimsModel, AuthenticationError>(AuthenticationError::InvalidToken),
{
    let c = spec_issued_claims(user_id, orgs, iss, aud, now, ttl, jti);
    lemma_issued_claims_wf(user_id, orgs, iss, aud, now, ttl, jti);
    lemma_verify_token_of(secret, secret, c, other_iss, aud, later);
    assert(c.aud.contains(aud)) by {
        assert(c.aud[0] == aud);
    }
}

/// A token signed under one key fails verification under another with
/// `InvalidToken` — whenever the two keys' tags of the signed text differ,
/// which is the working assumption about the tag primitive.
pub proof fn lemma_wrong_key_rejected(
    secret_sign: Seq<u8>,
    secret_verify: Seq<u8>,
    c: ClaimsModel,
    iss: Seq<u8>,
    aud: Seq<u8>,
    now: u64,
)
    requires
        c.wf(),
        ({
            let msg = spec_b64(header_json()) + seq![0x2eu8] + spec_b64(spec_claims_json(c));
            hs256_sig_of(secret_sign, msg) != hs256_sig_of(secret_verify, msg)
        }),
    ensures
        spec_verify(secret_verify, iss, aud, now, token_of(secret_sign, c)) == Err::<
            ClaimsModel,
            AuthenticationError,
        >(AuthenticationError::InvalidToken),
{
    lemma_verify_token_of(secret_sign, secret_verify, c, iss, aud, now);
}

} // verus!
// The authentication stage: from a request's token sources to a resolved
// identity.
verus! {

/// What authentication decides for a request's token sources at time `now`:
/// extraction (cookie first, then bearer header), verification, then the
/// subject claim read as a user identifier — whose failure is the internal
/// `SerializationError`, a signed token should never carry a malformed
/// subject.
pub open spec fn spec_authenticate(
    secret: Seq<u8>,
    iss: Seq<u8>,
    aud: Seq<u8>,
    now: u64,
    cookie: Option<Seq<char>>,
    authorization: Option<Seq<char>>,
) -> Result<(u128, Seq<u128>), AuthenticationError> {
    match crate::extract::spec_extracted_token(cookie, authorization) {
        None => Err(AuthenticationError::InvalidToken),
        Some(token) => match spec_verify(secret, iss, aud, now, vstd::utf8::encode_utf8(token)) {
            Err(e) => Err(e),
            Ok(c) => match crate::uuidfmt::spec_parse_uuid(c.sub) {
                None => Err(AuthenticationError::SerializationError),
                Some(user_id) => Ok((user_id, c.org_access)),
            },
        },
    }
}

/// Resolves the caller: pulls the token from cookie or bearer header,
/// verifies it, and turns the verified claims into the request's identity,
/// exactly as [`spec_authenticate`] decides.
pub fn authenticate(
    cookie_token: Option<&String>,
    authorization: Option<&String>,
    cfg: &AppConfig,
    keys: &Keys,
    now: u64,
) -> (r: Result<crate::identity::Identity, AuthenticationError>)
    ensures
        ({
            let decision = spec_authenticate(
                keys.secret@,
                vstd::utf8::encode_utf8(cfg.iss@),
                vstd::utf8::encode_utf8(cfg.aud@),
                now,
                match cookie_token {
                    Some(c) => Some(c@),
                    None => None,
                },
                match authorization {
                    Some(a) => Some(a@),
                    None => None,
                },
            );
            match r {
                Ok(identity) => decision == Ok::<(u128, Seq<u128>), AuthenticationError>(
                    (identity.user_id, identity.organisation_ids@),
                ),
                Err(e) => decision == Err::<(u128, Seq<u128>), AuthenticationError>(e),
            }
        }),
{
    let token = match crate::extract::get_token(cookie_token, authorization) {
        Ok(t) => t,
        Err(e) => {
            return Err(e);
        },
    };
    let claims = match handle_decode(token.as_str(), cfg, keys, now) {
        Ok(c) => c,
        Err(e) => {
            return Err(e);
        },
    };
    let user_id = match crate::uuidfmt::parse_uuid(claims.sub.as_slice()) {
        Some(u) => u,
        None => {
            return Err(AuthenticationError::SerializationError);
        },
    };
    Ok(crate::identity::Identity { user_id, organisation_ids: claims.org_access })
}

} // verus!
// The authentication stage on an issued token.
verus! {

/// The whole stage round-trips: a request whose cookie carries a token
/// issued for a user resolves, any time until expiry plus leeway, to
/// exactly that user and those organisations — whatever the request's
/// `Authorization` header holds.
pub proof fn lemma_authenticate_issued(
    secret: Seq<u8>,
    iss: Seq<u8>,
    aud: Seq<u8>,
    user_id: u128,
    orgs: Seq<u128>,
    now: u64,
    ttl: u64,
    jti: u128,
    later: u64,
    token: Seq<char>,
    authorization: Option<Seq<char>>,
)
    requires
        json_safe(iss),
        json_safe(aud),
        now + ttl <= u64::MAX,
        later <= now + ttl + LEEWAY,
        vstd::utf8::encode_utf8(token) == token_of(
            secret,
            spec_issued_claims(user_id, orgs, iss, aud, now, ttl, jti),
        ),
    ensures
        spec_authenticate(secret, iss, aud, later, Some(token), authorization) == Ok::<
            (u128, Seq<u128>),
            AuthenticationError,
        >((user_id, orgs)),
{
    lemma_issue_verify_round_trip(secret, iss, aud, user_id, orgs, now, ttl, jti, later);
}

} // verus!
