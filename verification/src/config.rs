//! Process-wide configuration: the signing secret, token issuer and
//! audience, token lifetime and run mode. Built once at startup from the
//! environment's values and read-only afterwards; startup fails when a
//! required value is missing or unusable.

use vstd::prelude::*;

verus! {

/// The longest accepted token lifetime, in hours: the largest whole number
/// of hours that still fits a signed 64-bit count of milliseconds.
pub const MAX_TTL_HOURS: u64 = 2562047788015;

/// A byte that may stand inside a JSON string without escaping: printable
/// ASCII, neither a quote nor a backslash.
pub open spec fn json_safe_byte(b: u8) -> bool {
    0x20 <= b <= 0x7e && b != 0x22 && b != 0x5c
}

/// A byte string that may be embedded verbatim in a JSON string literal.
pub open spec fn json_safe(s: Seq<u8>) -> bool {
    forall|i: int| 0 <= i < s.len() ==> json_safe_byte(#[trigger] s[i])
}

/// True when every byte of `s` is safe inside a JSON string literal.
pub fn is_json_safe(s: &[u8]) -> (r: bool)
    ensures
        r == json_safe(s@),
{
    let mut i: usize = 0;
    while i < s.len()
        invariant
            0 <= i <= s@.len(),
            forall|j: int| 0 <= j < i ==> json_safe_byte(#[trigger] s@[j]),
        decreases s@.len() - i,
    {
        let b = s[i];
        if !(0x20 <= b && b <= 0x7e && b != 0x22 && b != 0x5c) {
            return false;
        }
        i += 1;
    }
    true
}

/// A string's text as bytes, one byte per character; faithful only for
/// ASCII text.
pub open spec fn char_bytes(s: Seq<char>) -> Seq<u8> {
    s.map(|_i: int, c: char| c as u8)
}

/// The immutable configuration object, built once at startup and passed to
/// every component that needs it.
pub struct AppConfig {
    /// Issuer written into every issued token.
    pub iss: String,
    /// Audience written into, and required of, every token.
    pub aud: String,
    /// Token lifetime in seconds.
    pub ttl_seconds: u64,
    /// Whether the process runs in local/dev mode; only the cookie's
    /// `secure` attribute depends on it.
    pub run_mode_local: bool,
}

impl AppConfig {
    /// Well-formedness: issuer and audience can stand inside the token's
    /// JSON payload verbatim, and the lifetime stays within the accepted
    /// bound.
    pub open spec fn wf(&self) -> bool {
        &&& json_safe(char_bytes(self.iss@))
        &&& vstd::utf8::is_ascii_chars(self.iss@)
        &&& json_safe(char_bytes(self.aud@))
        &&& vstd::utf8::is_ascii_chars(self.aud@)
        &&& self.ttl_seconds <= MAX_TTL_HOURS * 3600
    }
}

/// Builds the configuration from the environment's values, or refuses to.
///
/// Returns `None` — the process must not start — when the issuer, audience
/// or lifetime is missing, when the lifetime is out of range, or when the
/// issuer or audience could not be embedded in a token: both stand verbatim
/// inside the token's JSON payload, so they must be printable ASCII without
/// quote or backslash; no escaping is attempted, such values are refused at
/// startup. A missing run mode defaults to local.
pub fn init(
    run_mode: Option<String>,
    jwt_iss: Option<String>,
    jwt_aud: Option<String>,
    jwt_exp_in_hours: Option<u64>,
) -> (r: Option<AppConfig>)
    ensures
        r matches Some(cfg) ==> {
            &&& cfg.wf()
            &&& jwt_iss matches Some(i) && cfg.iss == i
            &&& jwt_aud matches Some(a) && cfg.aud == a
            &&& jwt_exp_in_hours matches Some(h) && cfg.ttl_seconds == h * 3600
            &&& cfg.run_mode_local == (run_mode matches Some(m) ==> m@ == "local"@)
        },
        r is None <==> {
            ||| jwt_iss is None
            ||| jwt_aud is None
            ||| jwt_exp_in_hours is None
            ||| (jwt_iss matches Some(i) && !(json_safe(char_bytes(i@))
                && vstd::utf8::is_ascii_chars(i@)))
            ||| (jwt_aud matches Some(a) && !(json_safe(char_bytes(a@))
                && vstd::utf8::is_ascii_chars(a@)))
            ||| (jwt_exp_in_hours matches Some(h) && h > MAX_TTL_HOURS)
        },
{
    let iss = match jwt_iss {
        Some(i) => i,
        None => {
            return None;
        },
    };
    let aud = match jwt_aud {
        Some(a) => a,
        None => {
            return None;
        },
    };
    let hours = match jwt_exp_in_hours {
        Some(h) => h,
        None => {
            return None;
        },
    };
    if hours > MAX_TTL_HOURS {
        return None;
    }
    if !ascii_json_safe_str(iss.as_str()) || !ascii_json_safe_str(aud.as_str()) {
        return None;
    }
    let run_mode_local = match run_mode {
        Some(m) => {
            let local: String = "local".to_owned();
            m.eq(&local)
        },
        None => true,
    };
    Some(AppConfig { iss, aud, ttl_seconds: hours * 3600, run_mode_local })
}

/// True when `s` is ASCII and safe inside a JSON string literal.
pub fn ascii_json_safe_str(s: &str) -> (r: bool)
    ensures
        r == (json_safe(char_bytes(s@)) && vstd::utf8::is_ascii_chars(s@)),
{
    proof {
        broadcast use vstd::string::is_ascii_spec_bytes;
    }
    if !s.is_ascii() {
        return false;
    }
    let bytes = s.as_bytes();
    let r = is_json_safe(bytes);
    proof {
        assert(bytes@ =~= char_bytes(s@));
    }
    r
}

/// The symmetric signing key, loaded once at startup and shared read-only
/// by all requests.
pub struct Keys {
    /// The raw secret both signing and verification derive from.
    pub secret: Vec<u8>,
}

/// Wraps the signing secret for use by the token codec.
pub fn init_keys(secret: Vec<u8>) -> (r: Keys)
    ensures
        r.secret == secret,
{
    Keys { secret }
}

} // verus!
