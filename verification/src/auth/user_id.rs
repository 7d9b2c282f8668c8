//! Who is calling: from the cookies of a request to a user and a session
//! that the session store vouches for.

use crate::auth::token::{ids_view, verify_token, verify_token_spec};
use crate::data::sessions::{session_lookup, session_option_view, Session, SessionView, Sessions};
use crate::data::Data;
use crate::error::{text_option_view, text_result_view, ApiError, ApiErrorView, StorageError};
use crate::text::text_equal;
use vstd::prelude::*;

verus! {

/// The user on whose behalf a request is served.
#[derive(Debug, PartialEq, Eq)]
pub struct UserId(pub String);

/// The user and the session of an authenticated request.
#[derive(Debug, PartialEq, Eq)]
pub struct AuthData {
    pub user_id: String,
    pub session_id: String,
}

/// The user and the session on whose behalf a request is served.
#[derive(Debug, PartialEq, Eq)]
pub struct Auth(pub AuthData);

/// Mathematical value of [`AuthData`].
pub struct AuthDataView {
    pub user_id: Seq<char>,
    pub session_id: Seq<char>,
}

impl View for AuthData {
    type V = AuthDataView;

    open spec fn view(&self) -> AuthDataView {
        AuthDataView { user_id: self.user_id@, session_id: self.session_id@ }
    }
}

/// What the transport found of the `Cookie` header of a request.
#[derive(Debug, PartialEq, Eq)]
pub enum CookieHeader {
    /// The request has no such header.
    Missing,
    /// The header could not be read.
    Invalid,
    /// The cookies of the header as pairs of name and value, in its order.
    Cookies(Vec<(String, String)>),
}

/// Mathematical value of [`CookieHeader`].
pub enum CookieHeaderView {
    Missing,
    Invalid,
    Cookies(Seq<(Seq<char>, Seq<char>)>),
}

/// The values of a list of cookies.
pub open spec fn pairs_view(pairs: Seq<(String, String)>) -> Seq<(Seq<char>, Seq<char>)> {
    pairs.map_values(|p: (String, String)| (p.0@, p.1@))
}

impl View for CookieHeader {
    type V = CookieHeaderView;

    open spec fn view(&self) -> CookieHeaderView {
        match *self {
            CookieHeader::Missing => CookieHeaderView::Missing,
            CookieHeader::Invalid => CookieHeaderView::Invalid,
            CookieHeader::Cookies(pairs) => CookieHeaderView::Cookies(pairs_view(pairs@)),
        }
    }
}

/// The value of the first cookie with the given name.
pub open spec fn cookie_value(pairs: Seq<(Seq<char>, Seq<char>)>, name: Seq<char>) -> Option<
    Seq<char>,
>
    decreases pairs.len(),
{
    if pairs.len() == 0 {
        None
    } else if pairs[0].0 == name {
        Some(pairs[0].1)
    } else {
        cookie_value(pairs.drop_first(), name)
    }
}

/// The session token that a request carries, or why it carries none.
pub open spec fn session_token_spec(header: CookieHeaderView) -> Result<Seq<char>, ApiErrorView> {
    match header {
        CookieHeaderView::Missing => Err(ApiErrorView::Unauthorized("no cookie"@)),
        CookieHeaderView::Invalid => Err(ApiErrorView::UnexpectedError("error getting cookies"@)),
        CookieHeaderView::Cookies(pairs) => match cookie_value(pairs, "auth"@) {
            Some(token) => Ok(token),
            None => Err(ApiErrorView::Unauthorized("no cookie"@)),
        },
    }
}

/// Whom a request claims to come from: the ids of its token, if the token is
/// well signed.
pub open spec fn claim_spec(header: CookieHeaderView, secret: Seq<char>) -> Result<
    AuthDataView,
    ApiErrorView,
> {
    match session_token_spec(header) {
        Err(e) => Err(e),
        Ok(token) => match verify_token_spec(secret, token) {
            Err(_) => Err(ApiErrorView::Unauthorized("invalid auth"@)),
            Ok(ids) => Ok(AuthDataView { user_id: ids.0, session_id: ids.1 }),
        },
    }
}

/// Whether a claim is confirmed, given what the session store found for it.
pub open spec fn confirm_spec(
    claimed: AuthDataView,
    found: Result<Option<SessionView>, StorageError>,
) -> Result<AuthDataView, ApiErrorView> {
    match found {
        Err(_) => Err(ApiErrorView::UnexpectedError("error getting context"@)),
        Ok(None) => Err(ApiErrorView::Unauthorized("no session"@)),
        Ok(Some(_)) => Ok(claimed),
    }
}

/// Who is calling: the token must be there and well signed, and the session
/// store must hold its session for its user.
pub open spec fn authenticate_spec(
    header: CookieHeaderView,
    secret: Seq<char>,
    sessions: Map<Seq<char>, SessionView>,
) -> Result<AuthDataView, ApiErrorView> {
    match claim_spec(header, secret) {
        Err(e) => Err(e),
        Ok(claimed) => confirm_spec(
            claimed,
            Ok(session_lookup(sessions, claimed.user_id, claimed.session_id)),
        ),
    }
}

/// The value of an identity or an error.
pub open spec fn auth_result_view(r: Result<AuthData, ApiError>) -> Result<
    AuthDataView,
    ApiErrorView,
> {
    match r {
        Ok(a) => Ok(a@),
        Err(e) => Err(e@),
    }
}

/// The value of what the session store found.
pub open spec fn found_view(found: Result<Option<Session>, StorageError>) -> Result<
    Option<SessionView>,
    StorageError,
> {
    match found {
        Ok(s) => Ok(session_option_view(s)),
        Err(e) => Err(e),
    }
}

/// Looks up the first cookie with the given name.
pub fn find_cookie(pairs: &Vec<(String, String)>, name: &str) -> (value: Option<String>)
    ensures
        text_option_view(value) == cookie_value(pairs_view(pairs@), name@),
{
    let ghost all = pairs_view(pairs@);
    let mut i: usize = 0;
    assert(all.skip(0) =~= all);
    while i < pairs.len()
        invariant
            i <= pairs.len(),
            all == pairs_view(pairs@),
            cookie_value(all, name@) == cookie_value(all.skip(i as int), name@),
        decreases pairs.len() - i,
    {
        assert(all.skip(i as int)[0] == (pairs[i as int].0@, pairs[i as int].1@));
        assert(all.skip(i as int).drop_first() =~= all.skip(i as int + 1));
        if text_equal(pairs[i].0.as_str(), name) {
            return Some(pairs[i].1.clone());
        }
        i += 1;
    }
    None
}

/// Takes the session token out of the cookies of a request.
pub fn session_token(header: &CookieHeader) -> (r: Result<String, ApiError>)
    ensures
        text_result_view(r) == session_token_spec(header@),
{
    match header {
        CookieHeader::Missing => Err(ApiError::unauthorized("no cookie")),
        CookieHeader::Invalid => Err(ApiError::unexpected("error getting cookies")),
        CookieHeader::Cookies(pairs) => match find_cookie(pairs, "auth") {
            Some(token) => Ok(token),
            None => Err(ApiError::unauthorized("no cookie")),
        },
    }
}

/// Reads and checks the token of a request. What comes out is a claim: the
/// session store has not been asked yet.
pub fn claim(header: &CookieHeader, secret: &str) -> (r: Result<AuthData, ApiError>)
    ensures
        auth_result_view(r) == claim_spec(header@, secret@),
{
    match session_token(header) {
        Err(e) => Err(e),
        Ok(token) => {
            let verified = verify_token(secret, token.as_str());
            assert(ids_view(verified) == verify_token_spec(secret@, token@));
            match verified {
                Err(_) => Err(ApiError::unauthorized("invalid auth")),
                Ok(ids) => Ok(AuthData { user_id: ids.0, session_id: ids.1 }),
            }
        },
    }
}

/// Confirms a claim if the session store holds its session, and turns it down
/// if the store holds none or could not be asked. That the store holds the
/// session is all that counts: its expiry is not looked at, and a session
/// ends when it is deleted.
pub fn confirm(claimed: AuthData, found: Result<Option<Session>, StorageError>) -> (r: Result<
    AuthData,
    ApiError,
>)
    ensures
        auth_result_view(r) == confirm_spec(claimed@, found_view(found)),
{
    match found {
        Err(_) => Err(ApiError::unexpected("error getting context")),
        Ok(None) => Err(ApiError::unauthorized("no session")),
        Ok(Some(_)) => Ok(claimed),
    }
}

/// Finds out who is calling. Nothing is written.
pub fn authenticate(header: &CookieHeader, secret: &str, sessions: &Sessions) -> (r: Result<
    AuthData,
    ApiError,
>)
    ensures
        auth_result_view(r) == authenticate_spec(header@, secret@, sessions@),
{
    match claim(header, secret) {
        Err(e) => Err(e),
        Ok(claimed) => {
            let found = sessions.get(claimed.user_id.as_str(), claimed.session_id.as_str());
            confirm(claimed, found)
        },
    }
}

impl UserId {
    /// The user of a request, from its cookies.
    pub fn from_request_parts(header: &CookieHeader, secret: &str, data: &Data) -> (r: Result<
        UserId,
        ApiError,
    >)
        ensures
            match authenticate_spec(header@, secret@, data.sessions@) {
                Ok(a) => r is Ok && r->Ok_0.0@ == a.user_id,
                Err(e) => r is Err && r->Err_0@ == e,
            },
    {
        match authenticate(header, secret, &data.sessions) {
            Ok(auth) => Ok(UserId(auth.user_id)),
            Err(e) => Err(e),
        }
    }
}

impl Auth {
    /// The user and the session of a request, from its cookies.
    pub fn from_request_parts(header: &CookieHeader, secret: &str, data: &Data) -> (r: Result<
        Auth,
        ApiError,
    >)
        ensures
            match authenticate_spec(header@, secret@, data.sessions@) {
                Ok(a) => r is Ok && r->Ok_0.0@ == a,
                Err(e) => r is Err && r->Err_0@ == e,
            },
    {
        match authenticate(header, secret, &data.sessions) {
            Ok(auth) => Ok(Auth(auth)),
            Err(e) => Err(e),
        }
    }
}

} // verus!
