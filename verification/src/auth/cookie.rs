//! The cookie that carries a session token to the browser and back.

use crate::text::{decimal, decimal_string};
use crate::time::{seconds_until, whole_seconds_until, Timestamp};
use vstd::prelude::*;

verus! {

/// Name of the cookie that carries the session token.
pub const SESSION_COOKIE_NAME: &'static str = "auth";

/// The `Set-Cookie` value for `token` with the given lifetime in seconds:
/// the whole site, sent on same-site requests and top-level navigation,
/// hidden from scripts, and restricted to HTTPS in production.
pub open spec fn session_cookie_spec(token: Seq<char>, max_age: int, is_prod: bool) -> Seq<char> {
    "auth="@ + token + "; Path=/; Max-Age="@ + decimal(max_age) + "; SameSite=Lax; HttpOnly;"@ + (
    if is_prod {
        " Secure;"@
    } else {
        Seq::<char>::empty()
    })
}

/// Writes the cookie for `token` with a lifetime of `max_age` seconds.
pub fn format_session_cookie(token: &str, max_age: i64, is_prod: bool) -> (cookie: String)
    ensures
        cookie@ == session_cookie_spec(token@, max_age as int, is_prod),
{
    let age = decimal_string(max_age);
    let mut cookie = SESSION_COOKIE_NAME.to_owned();
    cookie.append("=");
    cookie.append(token);
    cookie.append("; Path=/; Max-Age=");
    cookie.append(age.as_str());
    cookie.append("; SameSite=Lax; HttpOnly;");
    if is_prod {
        cookie.append(" Secure;");
    }
    proof {
        reveal_strlit("auth");
        reveal_strlit("=");
        reveal_strlit("auth=");
        assert("auth="@ =~= "auth"@ + "="@);
        assert(cookie@ =~= session_cookie_spec(token@, max_age as int, is_prod));
    }
    cookie
}

/// The cookie that hands `token` to the browser until the session's `expiry`,
/// as seen at `now`.
pub fn create_session_cookie(token: &str, expiry: Timestamp, now: Timestamp, is_prod: bool) -> (cookie:
    String)
    ensures
        cookie@ == session_cookie_spec(token@, seconds_until(now as int, expiry as int), is_prod),
{
    format_session_cookie(token, whole_seconds_until(now, expiry), is_prod)
}

/// The cookie that makes the browser forget its session: no token and a
/// lifetime of zero.
pub fn create_empty_session_cookie(is_prod: bool) -> (cookie: String)
    ensures
        cookie@ == session_cookie_spec(Seq::<char>::empty(), 0, is_prod),
{
    let cookie = format_session_cookie("", 0, is_prod);
    proof {
        reveal_strlit("");
        assert(""@ =~= Seq::<char>::empty());
    }
    cookie
}

} // verus!
