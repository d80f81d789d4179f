//! Pulling the session token out of a request: the `access_token` cookie
//! wins; otherwise the `Authorization` header supplies it, but only with the
//! literal, case-sensitive prefix `Bearer ` (one space). A request offering
//! neither is rejected as carrying no valid token.

use vstd::prelude::*;
use crate::errors::AuthenticationError;

verus! {

/// The name of the cookie carrying the session token.
pub const ACCESS_TOKEN_COOKIE: &'static str = "access_token";

/// The token inside an `Authorization` header value, if the value starts
/// with exactly `Bearer `.
pub open spec fn spec_bearer_token(auth: Seq<char>) -> Option<Seq<char>> {
    if auth.len() >= 7 && auth.subrange(0, 7) == "Bearer "@ {
        Some(auth.skip(7))
    } else {
        None
    }
}

/// The token a request supplies: the cookie's value when the cookie is
/// present, else the bearer header's remainder, else nothing.
pub open spec fn spec_extracted_token(
    cookie: Option<Seq<char>>,
    authorization: Option<Seq<char>>,
) -> Option<Seq<char>> {
    match cookie {
        Some(c) => Some(c),
        None => match authorization {
            Some(a) => spec_bearer_token(a),
            None => None,
        },
    }
}

/// Picks the session token from the cookie value and the `Authorization`
/// header value, in that order of precedence; fails with `InvalidToken`
/// when neither source yields one.
pub fn get_token(cookie_token: Option<&String>, authorization: Option<&String>) -> (r: Result<
    String,
    AuthenticationError,
>)
    ensures
        match r {
            Ok(t) => spec_extracted_token(
                match cookie_token {
                    Some(c) => Some(c@),
                    None => None,
                },
                match authorization {
                    Some(a) => Some(a@),
                    None => None,
                },
            ) == Some(t@),
            Err(e) => e is InvalidToken && spec_extracted_token(
                match cookie_token {
                    Some(c) => Some(c@),
                    None => None,
                },
                match authorization {
                    Some(a) => Some(a@),
                    None => None,
                },
            ) is None,
        },
{
    if let Some(c) = cookie_token {
        return Ok(c.clone());
    }
    if let Some(a) = authorization {
        if let Some(t) = bearer_token(a.as_str()) {
            return Ok(t);
        }
    }
    Err(AuthenticationError::InvalidToken)
}

/// The remainder of `auth` after the `Bearer ` prefix, when that exact
/// prefix is present.
pub fn bearer_token(auth: &str) -> (r: Option<String>)
    ensures
        match r {
            Some(t) => spec_bearer_token(auth@) == Some(t@),
            None => spec_bearer_token(auth@) is None,
        },
{
    proof {
        reveal_strlit("Bearer ");
    }
    let n = auth.unicode_len();
    if n < 7 {
        return None;
    }
    if auth.get_char(0) == 'B' && auth.get_char(1) == 'e' && auth.get_char(2) == 'a'
        && auth.get_char(3) == 'r' && auth.get_char(4) == 'e' && auth.get_char(5) == 'r'
        && auth.get_char(6) == ' ' {
        proof {
            assert(auth@.subrange(0, 7) =~= "Bearer "@);
        }
        let rest = auth.substring_char(7, n);
        proof {
            assert(auth@.subrange(7, auth@.len() as int) =~= auth@.skip(7));
        }
        Some(rest.to_owned())
    } else {
        proof {
            assert(auth@.subrange(0, 7) != "Bearer "@) by {
                if auth@.subrange(0, 7) == "Bearer "@ {
                    assert(auth@.subrange(0, 7)[0] == 'B');
                    assert(auth@.subrange(0, 7)[1] == 'e');
                    assert(auth@.subrange(0, 7)[2] == 'a');
                    assert(auth@.subrange(0, 7)[3] == 'r');
                    assert(auth@.subrange(0, 7)[4] == 'e');
                    assert(auth@.subrange(0, 7)[5] == 'r');
                    assert(auth@.subrange(0, 7)[6] == ' ');
                }
            }
        }
        None
    }
}

/// The cookie always wins: when both a cookie token and an authorization
/// header are present — whatever each holds — extraction yields the
/// cookie's value.
pub proof fn lemma_cookie_takes_precedence(cookie: Seq<char>, authorization: Seq<char>)
    ensures
        spec_extracted_token(Some(cookie), Some(authorization)) == Some(cookie),
{
}

/// Without a cookie, an `Authorization` value lacking the exact `Bearer `
/// prefix yields no token, so extraction fails.
pub proof fn lemma_non_bearer_header_rejected(authorization: Seq<char>)
    requires
        authorization.len() < 7 || authorization.subrange(0, 7) != "Bearer "@,
    ensures
        spec_extracted_token(None, Some(authorization)) is None,
{
}

} // verus!
