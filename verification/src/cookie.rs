//! The session cookie's attributes, decided here and rendered by the HTTP
//! edge: root path, HTTP-only, secure outside local mode, expiring with the
//! claims it carries.

use vstd::prelude::*;
use crate::claims::Claims;

verus! {

/// Every attribute of the `Set-Cookie` answer, as plain values.
#[derive(Debug)]
pub struct CookieSpec {
    pub name: String,
    pub value: String,
    pub domain: String,
    pub path: String,
    pub secure: bool,
    pub http_only: bool,
    pub expires_unix: u64,
}

/// Decides the session cookie's attributes: the path is the root, the
/// cookie is HTTP-only, it is secure unless the process runs in local mode,
/// and it expires exactly when the claims do.
pub fn build_cookie(
    claims: &Claims,
    cookie_name: String,
    value: String,
    domain: String,
    run_mode_local: bool,
) -> (r: CookieSpec)
    ensures
        r.name == cookie_name,
        r.value == value,
        r.domain == domain,
        r.path@ == "/"@,
        r.secure == !run_mode_local,
        r.http_only,
        r.expires_unix == claims.exp,
{
    let is_secure = !run_mode_local;
    CookieSpec {
        name: cookie_name,
        value,
        domain,
        path: "/".to_owned(),
        secure: is_secure,
        http_only: true,
        expires_unix: claims.exp,
    }
}

} // verus!
