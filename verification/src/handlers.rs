//! The request handlers: what the server does for each call once the
//! transport has decoded it. Each handler works on the stores and the hub it
//! is given and answers with plain values. Beside each handler stand the
//! decisions it is made of, as functions of what the stores answered, for a
//! server whose stores are reached over the network. Signing in and
//! registering take several calls to the outside; their handlers run the
//! steps of [`crate::signin`].

use crate::auth::cookie::{create_empty_session_cookie, create_session_cookie, session_cookie_spec};
use crate::auth::password::{argon2_verdict, verify_outcome, PasswordError};
use crate::auth::token::{create_token, issued_token};
use crate::auth::user_id::{Auth, UserId};
use crate::config::Config;
use crate::data::bookmarks::{
    bulk_entry, bulk_upsert_spec, lemma_bulk_upsert_entries, lemma_pagination_complete,
    lemma_positions_with_id, last_with_id, lookup, next_cursor, next_cursor_spec, next_view, page_spec,
    pull_all, rows_map, sorted, views_of, Bookmark, BookmarkView, Key, RowView,
};
use crate::data::sessions::{session_delete_spec, Session, SessionView};
use crate::data::table::find;
use crate::data::users::{user_conflicts, user_option_view, User, UserView};
use crate::data::Data;
use crate::error::{text_result_view, unit_result_view, ApiError, ApiErrorView, StorageError};
use crate::signin::{run, Purpose};
use crate::hub::{messages_view, tag_all, tagged, Hub, Subscriber, SyncMessage, SyncMessageView, ReceivedView};
use crate::time::{seconds_until, Timestamp, SESSION_LIFETIME};
use vstd::prelude::*;

verus! {

/// How many records a page holds where the client names no limit.
pub const DEFAULT_PAGE_LIMIT: i64 = 100;

/// A batch of changes that a client submits.
#[derive(Debug, PartialEq, Eq)]
pub struct SyncRequest {
    pub bookmarks: Vec<Bookmark>,
}

/// What a client asks for when it catches up.
#[derive(Debug, PartialEq, Eq)]
pub struct BootstrapRequest {
    /// Where the page before ended; none for the first page.
    pub cursor: Option<String>,
    /// The most records the page may hold.
    pub limit: Option<i64>,
    /// Only records modified after this instant are wanted.
    pub from: Timestamp,
}

/// One page of records and where the next page starts.
#[derive(Debug, PartialEq, Eq)]
pub struct BootstrapResponse {
    pub bookmarks: Vec<Bookmark>,
    pub next_cursor: Option<String>,
}

/// Mathematical value of a [`BootstrapResponse`].
pub struct BootstrapResponseView {
    pub bookmarks: Seq<BookmarkView>,
    pub next_cursor: Option<Seq<char>>,
}

impl View for BootstrapResponse {
    type V = BootstrapResponseView;

    open spec fn view(&self) -> BootstrapResponseView {
        BootstrapResponseView {
            bookmarks: views_of(self.bookmarks@),
            next_cursor: next_view(self.next_cursor),
        }
    }
}

/// What a signed-in user learns of its own account.
#[derive(Debug, PartialEq, Eq)]
pub struct MeResponse {
    pub id: String,
    pub username: String,
}

/// What the three stores hold.
pub struct DataView {
    pub bookmarks: Map<Key, BookmarkView>,
    pub sessions: Map<Seq<char>, SessionView>,
    pub users: Map<Seq<char>, UserView>,
    pub names: Map<Seq<char>, UserView>,
}

impl View for Data {
    type V = DataView;

    open spec fn view(&self) -> DataView {
        DataView {
            bookmarks: self.bookmarks@,
            sessions: self.sessions@,
            users: self.users@,
            names: self.users.by_name(),
        }
    }
}

/// The limit of a page: the one the client names, or the default.
pub open spec fn page_limit_spec(limit: Option<i64>) -> i64 {
    match limit {
        Some(l) => l,
        None => DEFAULT_PAGE_LIMIT,
    }
}

/// The limit of a page: the one the client names, or the default.
pub fn page_limit(limit: Option<i64>) -> (l: i64)
    ensures
        l == page_limit_spec(limit),
{
    match limit {
        Some(l) => l,
        None => DEFAULT_PAGE_LIMIT,
    }
}

/// What is broadcast for a batch, given how its write ended: after a write
/// that went through, one message for each bookmark, in the order of the
/// batch; after a write that failed, nothing.
pub open spec fn broadcast_plan_spec(
    user_id: Seq<char>,
    batch: Seq<BookmarkView>,
    written: Result<(), StorageError>,
) -> Result<Seq<SyncMessageView>, ApiErrorView> {
    match written {
        Ok(()) => Ok(tagged(user_id, batch)),
        Err(_) => Err(ApiErrorView::UnexpectedError("error upserting bookmarks"@)),
    }
}

/// The value of a list of messages or an error.
pub open spec fn plan_view(r: Result<Vec<SyncMessage>, ApiError>) -> Result<
    Seq<SyncMessageView>,
    ApiErrorView,
> {
    match r {
        Ok(messages) => Ok(messages_view(messages@)),
        Err(e) => Err(e@),
    }
}

/// Decides what is broadcast for a batch once its write has ended.
pub fn broadcast_plan(user_id: &str, bookmarks: &Vec<Bookmark>, written: Result<(), StorageError>) -> (r:
    Result<Vec<SyncMessage>, ApiError>)
    ensures
        plan_view(r) == broadcast_plan_spec(user_id@, views_of(bookmarks@), written),
{
    match written {
        Ok(()) => Ok(tag_all(user_id, bookmarks)),
        Err(_) => Err(ApiError::unexpected("error upserting bookmarks")),
    }
}

/// Takes in a batch of changes of one user: writes the batch to the bookmark
/// store as one write, each bookmark replacing what the store held under its
/// id, and then, the write being done, publishes each bookmark to the hub in
/// the order of the batch. A batch whose write fails is not broadcast.
pub fn sync_handler(hub: &mut Hub, data: &mut Data, user_id: &UserId, req: SyncRequest) -> (r: Result<
    (),
    ApiError,
>)
    ensures
        r is Ok,
        final(data)@ == (DataView {
            bookmarks: bulk_upsert_spec(old(data)@.bookmarks, user_id.0@, views_of(req.bookmarks@)),
            ..old(data)@
        }),
        sorted(final(data).bookmarks.listing()),
        final(hub).channel() == old(hub).channel(),
        final(hub).published() == old(hub).published() + tagged(
            user_id.0@,
            views_of(req.bookmarks@),
        ),
{
    let written = data.bookmarks.bulk_upsert(user_id.0.as_str(), req.bookmarks.as_slice());
    match broadcast_plan(user_id.0.as_str(), &req.bookmarks, written) {
        Err(e) => Err(e),
        Ok(messages) => {
            hub.publish_all(messages);
            Ok(())
        },
    }
}

/// Commit before broadcast. Take the store as a sync call left it and any
/// bookmark of the batch that the call published. A client that catches up
/// from an instant before the bookmark's modification time, page after page
/// under any limit of at least one, gets the record with the bookmark's id,
/// and gets it as the last bookmark of the batch with that id left it. What
/// a live stream shows was committed before. One case is left out: a
/// bookmark whose id the same batch names again and for the last time with
/// an older modification time.
pub proof fn lemma_commit_before_broadcast(
    rows: Seq<RowView>,
    before: Map<Key, BookmarkView>,
    user_id: Seq<char>,
    batch: Seq<BookmarkView>,
    i: int,
    since: i64,
    limit: int,
)
    requires
        sorted(rows),
        rows_map(rows) == bulk_upsert_spec(before, user_id, batch),
        0 <= i < batch.len(),
        since < batch[i].updated_at,
        limit >= 1,
        batch[last_with_id(batch, batch[i].id)].updated_at >= batch[i].updated_at,
    ensures
        tagged(user_id, batch)[i] == (SyncMessageView { user_id, bookmark: batch[i] }),
        exists|k: int|
            0 <= k < pull_all(rows, user_id, since, None, limit).len() && #[trigger] pull_all(
                rows,
                user_id,
                since,
                None,
                limit,
            )[k] == rows_map(rows)[(user_id, batch[i].id)],
        rows_map(rows).contains_key((user_id, batch[i].id)),
        crate::data::bookmarks::same_content(
            rows_map(rows)[(user_id, batch[i].id)],
            batch[last_with_id(batch, batch[i].id)],
        ),
        rows_map(rows)[(user_id, batch[i].id)].updated_at >= batch[i].updated_at,
{
    let id = batch[i].id;
    let after = rows_map(rows);
    lemma_bulk_upsert_entries(before, user_id, batch);
    lemma_positions_with_id(batch, id);
    assert(lookup(after, (user_id, id)) == bulk_entry(before, user_id, batch, id));
    lemma_pagination_complete(rows, user_id, since, limit);
    let all = pull_all(rows, user_id, since, None, limit);
    assert(all.contains(after[(user_id, id)]));
    let k = choose|k: int| 0 <= k < all.len() && all[k] == after[(user_id, id)];
    assert(all[k] == after[(user_id, id)]);
}

/// The answer to a catch-up read, given what the store read.
pub open spec fn bootstrap_response_spec(
    read: Result<Seq<BookmarkView>, StorageError>,
    limit: int,
) -> Result<BootstrapResponseView, ApiErrorView> {
    match read {
        Ok(page) => Ok(
            BootstrapResponseView { bookmarks: page, next_cursor: next_cursor_spec(page, limit) },
        ),
        Err(_) => Err(ApiErrorView::UnexpectedError("error getting bookmarks"@)),
    }
}

/// The value of what the store read.
pub open spec fn read_view(read: Result<Vec<Bookmark>, StorageError>) -> Result<
    Seq<BookmarkView>,
    StorageError,
> {
    match read {
        Ok(page) => Ok(views_of(page@)),
        Err(e) => Err(e),
    }
}

/// The value of a page or an error.
pub open spec fn bootstrap_view(r: Result<BootstrapResponse, ApiError>) -> Result<
    BootstrapResponseView,
    ApiErrorView,
> {
    match r {
        Ok(response) => Ok(response@),
        Err(e) => Err(e@),
    }
}

/// Puts the answer to a catch-up read together: the records as the store
/// read them and, where the page is full, the id of the last one as the
/// cursor of the next page.
pub fn bootstrap_response(read: Result<Vec<Bookmark>, StorageError>, limit: i64) -> (r: Result<
    BootstrapResponse,
    ApiError,
>)
    ensures
        bootstrap_view(r) == bootstrap_response_spec(read_view(read), limit as int),
{
    match read {
        Err(_) => Err(ApiError::unexpected("error getting bookmarks")),
        Ok(bookmarks) => {
            let next_cursor = next_cursor(&bookmarks, limit);
            Ok(BootstrapResponse { bookmarks, next_cursor })
        },
    }
}

/// What the bookmark store reads for a catch-up request.
pub open spec fn bootstrap_read_spec(
    data: &Data,
    user_id: Seq<char>,
    req: &BootstrapRequest,
) -> Result<Seq<BookmarkView>, StorageError> {
    if page_limit_spec(req.limit) < 0 {
        Err(StorageError::NegativeLimit)
    } else {
        Ok(
            page_spec(
                data.bookmarks.listing(),
                user_id,
                req.from,
                next_view(req.cursor),
                page_limit_spec(req.limit) as int,
            ),
        )
    }
}

/// Serves one page of a catch-up read: the records of the user that were
/// modified after `from`, in ascending order of id from the cursor on, as
/// the bookmark store reads them. Nothing is written.
pub fn bootstrap_handler(data: &Data, user_id: &UserId, req: &BootstrapRequest) -> (r: Result<
    BootstrapResponse,
    ApiError,
>)
    ensures
        sorted(data.bookmarks.listing()),
        bootstrap_view(r) == bootstrap_response_spec(
            bootstrap_read_spec(data, user_id.0@, req),
            page_limit_spec(req.limit) as int,
        ),
{
    let limit = page_limit(req.limit);
    let cursor: Option<&str> = match &req.cursor {
        Some(c) => Some(c.as_str()),
        None => None,
    };
    let read = data.bookmarks.get_all(user_id.0.as_str(), req.from, cursor, limit);
    bootstrap_response(read, limit)
}

/// Opens the live stream of a user: a subscription to the hub that lets
/// through the changes of that user and of nobody else.
pub fn sse_handler(hub: &Hub, user_id: UserId) -> (subscriber: Subscriber)
    ensures
        subscriber.channel() == hub.channel(),
        subscriber.user_id() == user_id.0@,
        subscriber.received() == Seq::<ReceivedView>::empty(),
{
    hub.subscribe(user_id.0)
}

/// The answer to a user that asks for its own account, given what the user
/// store found.
pub open spec fn me_response_spec(found: Result<Option<UserView>, StorageError>) -> Result<
    (Seq<char>, Seq<char>),
    ApiErrorView,
> {
    match found {
        Err(_) => Err(ApiErrorView::UnexpectedError("error getting user"@)),
        Ok(None) => Err(ApiErrorView::Unauthorized("user not found"@)),
        Ok(Some(user)) => Ok((user.id, user.username)),
    }
}

/// The value of what the user store found.
pub open spec fn found_user_view(found: Result<Option<User>, StorageError>) -> Result<
    Option<UserView>,
    StorageError,
> {
    match found {
        Ok(user) => Ok(user_option_view(user)),
        Err(e) => Err(e),
    }
}

/// The value of an account summary or an error.
pub open spec fn me_view(r: Result<MeResponse, ApiError>) -> Result<
    (Seq<char>, Seq<char>),
    ApiErrorView,
> {
    match r {
        Ok(me) => Ok((me.id@, me.username@)),
        Err(e) => Err(e@),
    }
}

/// Puts the answer to "who am I" together.
pub fn me_response(found: Result<Option<User>, StorageError>) -> (r: Result<MeResponse, ApiError>)
    ensures
        me_view(r) == me_response_spec(found_user_view(found)),
{
    match found {
        Err(_) => Err(ApiError::unexpected("error getting user")),
        Ok(None) => Err(ApiError::unauthorized("user not found")),
        Ok(Some(user)) => Ok(MeResponse { id: user.id, username: user.username }),
    }
}

/// Tells a signed-in user its id and its user name.
pub fn me_handler(data: &Data, user_id: &UserId) -> (r: Result<MeResponse, ApiError>)
    ensures
        me_view(r) == me_response_spec(Ok(find(data@.users, user_id.0@))),
{
    me_response(data.users.get(user_id.0.as_str()))
}

/// The answer to a logout, given how deleting the session ended: the cookie
/// that makes the browser forget the session.
pub open spec fn logout_response_spec(deleted: Result<(), StorageError>, is_prod: bool) -> Result<
    Seq<char>,
    ApiErrorView,
> {
    match deleted {
        Ok(()) => Ok(session_cookie_spec(Seq::<char>::empty(), 0, is_prod)),
        Err(_) => Err(ApiErrorView::UnexpectedError("error deleting session"@)),
    }
}

/// Puts the answer to a logout together.
pub fn logout_response(deleted: Result<(), StorageError>, is_prod: bool) -> (r: Result<
    String,
    ApiError,
>)
    ensures
        text_result_view(r) == logout_response_spec(deleted, is_prod),
{
    match deleted {
        Ok(()) => Ok(create_empty_session_cookie(is_prod)),
        Err(_) => Err(ApiError::unexpected("error deleting session")),
    }
}

/// Signs a user out: deletes the session of the request from the session
/// store and answers with the cookie that makes the browser forget it.
pub fn logout_handler(data: &mut Data, auth: &Auth, is_prod: bool) -> (r: Result<String, ApiError>)
    ensures
        text_result_view(r) == logout_response_spec(Ok(()), is_prod),
        final(data)@ == (DataView {
            sessions: session_delete_spec(old(data)@.sessions, auth.0.user_id@, auth.0.session_id@),
            ..old(data)@
        }),
{
    let deleted = data.sessions.delete(auth.0.user_id.as_str(), auth.0.session_id.as_str());
    logout_response(deleted, is_prod)
}

/// What a user types to sign in or to register.
#[derive(Debug, PartialEq, Eq)]
pub struct AuthForm {
    pub username: String,
    pub password: String,
}

/// What a sign-in takes from outside: two ids that nothing else bears, and
/// two readings of the clock.
#[derive(Debug, PartialEq, Eq)]
pub struct Fresh {
    /// The id of the account, should one be created.
    pub user_id: String,
    /// The id of the session that is opened.
    pub session_id: String,
    /// The instant at which the session is opened.
    pub now: Timestamp,
    /// The instant at which the answer is written.
    pub answered_at: Timestamp,
}

/// The session that is opened for a user at `now`: it runs out thirty days
/// later.
pub open spec fn opened_session(user_id: Seq<char>, session_id: Seq<char>, now: i64) -> SessionView {
    SessionView { id: session_id, user_id, expiry: Some((now + SESSION_LIFETIME) as i64) }
}

/// The cookie that hands a session to the browser: the token that the secret
/// issues for the user and the session, for as long as the session lasts
/// from the moment of the answer.
pub open spec fn session_cookie_value(
    secret: Seq<char>,
    is_prod: bool,
    user_id: Seq<char>,
    session_id: Seq<char>,
    expiry: i64,
    answered_at: i64,
) -> Seq<char> {
    session_cookie_spec(
        issued_token(secret, user_id, session_id),
        seconds_until(answered_at as int, expiry as int),
        is_prod,
    )
}

/// Makes the session that is opened for a user at `now`.
pub fn open_session(user_id: &str, session_id: String, now: Timestamp) -> (session: Session)
    requires
        now + SESSION_LIFETIME <= i64::MAX,
    ensures
        session@ == opened_session(user_id@, session_id@, now),
{
    Session { id: session_id, user_id: user_id.to_owned(), expiry: Some(now + SESSION_LIFETIME) }
}

/// Writes the cookie that hands a session to the browser.
pub fn session_cookie(
    config: &Config,
    user_id: &str,
    session_id: &str,
    expiry: Timestamp,
    answered_at: Timestamp,
) -> (cookie: String)
    ensures
        cookie@ == session_cookie_value(
            config.secret@,
            config.is_prod,
            user_id@,
            session_id@,
            expiry,
            answered_at,
        ),
{
    let token = create_token(config.secret.as_str(), user_id, session_id);
    create_session_cookie(token.as_str(), expiry, answered_at, config.is_prod)
}

/// Whether a sign-in goes on after the password was checked.
pub open spec fn password_decision_spec(verdict: Result<bool, PasswordError>) -> Result<
    (),
    ApiErrorView,
> {
    match verdict {
        Ok(true) => Ok(()),
        Ok(false) => Err(ApiErrorView::Unauthorized("invalid creds"@)),
        Err(_) => Err(ApiErrorView::UnexpectedError("error verifying password"@)),
    }
}

/// Decides whether a sign-in goes on after the password was checked.
pub fn password_decision(verdict: Result<bool, PasswordError>) -> (r: Result<(), ApiError>)
    ensures
        unit_result_view(r) == password_decision_spec(verdict),
{
    match verdict {
        Ok(true) => Ok(()),
        Ok(false) => Err(ApiError::unauthorized("invalid creds")),
        Err(_) => Err(ApiError::unexpected("error verifying password")),
    }
}

/// The account that is created for a user name once its password was hashed.
pub open spec fn new_account_spec(
    user_id: Seq<char>,
    username: Seq<char>,
    hashed: Result<Seq<char>, PasswordError>,
) -> Result<UserView, ApiErrorView> {
    match hashed {
        Ok(password_hash) => Ok(UserView { id: user_id, username, password_hash }),
        Err(_) => Err(ApiErrorView::UnexpectedError("error hashing password"@)),
    }
}

/// What hashing a password can give: a hash against which the password
/// verifies, or the report that hashing failed. Which hash it is depends on
/// the salt that was drawn.
pub open spec fn hashing_outcome(password: Seq<char>, hashed: Result<Seq<char>, PasswordError>) -> bool {
    match hashed {
        Ok(hash) => argon2_verdict(password, hash) == Some(true),
        Err(e) => e == PasswordError::Hashing,
    }
}

/// The value of a hash or an error.
pub open spec fn hashed_view(hashed: Result<String, PasswordError>) -> Result<
    Seq<char>,
    PasswordError,
> {
    match hashed {
        Ok(h) => Ok(h@),
        Err(e) => Err(e),
    }
}

/// The value of an account or an error.
pub open spec fn account_view(r: Result<User, ApiError>) -> Result<UserView, ApiErrorView> {
    match r {
        Ok(user) => Ok(user@),
        Err(e) => Err(e@),
    }
}

/// Makes the account for a user name once its password was hashed.
pub fn new_account(user_id: String, username: String, hashed: Result<String, PasswordError>) -> (r:
    Result<User, ApiError>)
    ensures
        account_view(r) == new_account_spec(user_id@, username@, hashed_view(hashed)),
{
    match hashed {
        Ok(password_hash) => Ok(User { id: user_id, username, password_hash }),
        Err(_) => Err(ApiError::unexpected("error hashing password")),
    }
}

/// Reports a store operation that failed as the step that failed.
pub fn stored(outcome: Result<(), StorageError>, context: &str) -> (r: Result<(), ApiError>)
    ensures
        unit_result_view(r) == crate::error::with_context_spec(outcome, context@),
{
    match outcome {
        Ok(()) => Ok(()),
        Err(_) => Err(ApiError::unexpected(context)),
    }
}

/// The stores with one more account.
pub open spec fn with_user(data: DataView, user: UserView) -> DataView {
    DataView {
        users: data.users.insert(user.id, user),
        names: data.names.insert(user.username, user),
        ..data
    }
}

/// The stores with one more session.
pub open spec fn with_session(data: DataView, session: SessionView) -> DataView {
    DataView { sessions: data.sessions.insert(session.id, session), ..data }
}

/// Opening a session for a user: the session is stored and the answer is its
/// cookie, unless the session id is taken.
pub open spec fn start_session_spec(
    data: DataView,
    secret: Seq<char>,
    is_prod: bool,
    user_id: Seq<char>,
    session_id: Seq<char>,
    now: i64,
    answered_at: i64,
) -> (Result<Seq<char>, ApiErrorView>, DataView) {
    if data.sessions.contains_key(session_id) {
        (Err(ApiErrorView::UnexpectedError("error inserting session"@)), data)
    } else {
        (
            Ok(
                session_cookie_value(
                    secret,
                    is_prod,
                    user_id,
                    session_id,
                    (now + SESSION_LIFETIME) as i64,
                    answered_at,
                ),
            ),
            with_session(data, opened_session(user_id, session_id, now)),
        )
    }
}

/// Signing in to an account that exists, given what the password check said:
/// a wrong password is turned down and nothing changes; the right one opens
/// a session.
pub open spec fn login_known_spec(
    data: DataView,
    secret: Seq<char>,
    is_prod: bool,
    user: UserView,
    verdict: Result<bool, PasswordError>,
    session_id: Seq<char>,
    now: i64,
    answered_at: i64,
) -> (Result<Seq<char>, ApiErrorView>, DataView) {
    match password_decision_spec(verdict) {
        Err(e) => (Err(e), data),
        Ok(()) => start_session_spec(data, secret, is_prod, user.id, session_id, now, answered_at),
    }
}

/// Signing in under a user name that no account bears, given what hashing
/// the password gave: the account is created and a session is opened for it.
pub open spec fn login_new_spec(
    data: DataView,
    secret: Seq<char>,
    is_prod: bool,
    username: Seq<char>,
    hashed: Result<Seq<char>, PasswordError>,
    user_id: Seq<char>,
    session_id: Seq<char>,
    now: i64,
    answered_at: i64,
) -> (Result<Seq<char>, ApiErrorView>, DataView) {
    match new_account_spec(user_id, username, hashed) {
        Err(e) => (Err(e), data),
        Ok(user) => if user_conflicts(data.users, data.names, user) {
            (Err(ApiErrorView::UnexpectedError("error inserting user"@)), data)
        } else {
            start_session_spec(
                with_user(data, user),
                secret,
                is_prod,
                user_id,
                session_id,
                now,
                answered_at,
            )
        },
    }
}

/// Registering a user name that is free, given what hashing the password
/// gave: the account and its first session are stored together or not at
/// all.
pub open spec fn register_new_spec(
    data: DataView,
    secret: Seq<char>,
    is_prod: bool,
    username: Seq<char>,
    hashed: Result<Seq<char>, PasswordError>,
    user_id: Seq<char>,
    session_id: Seq<char>,
    now: i64,
    answered_at: i64,
) -> (Result<Seq<char>, ApiErrorView>, DataView) {
    match new_account_spec(user_id, username, hashed) {
        Err(e) => (Err(e), data),
        Ok(user) => if user_conflicts(data.users, data.names, user) || data.sessions.contains_key(
            session_id,
        ) {
            (Err(ApiErrorView::UnexpectedError("error inserting user with session"@)), data)
        } else {
            (
                Ok(
                    session_cookie_value(
                        secret,
                        is_prod,
                        user_id,
                        session_id,
                        (now + SESSION_LIFETIME) as i64,
                        answered_at,
                    ),
                ),
                with_session(with_user(data, user), opened_session(user_id, session_id, now)),
            )
        },
    }
}

/// Opens a session for a user and answers with its cookie.
pub fn start_session(
    data: &mut Data,
    config: &Config,
    user_id: &str,
    session_id: String,
    now: Timestamp,
    answered_at: Timestamp,
) -> (r: Result<String, ApiError>)
    requires
        now + SESSION_LIFETIME <= i64::MAX,
    ensures
        (text_result_view(r), final(data)@) == start_session_spec(
            old(data)@,
            config.secret@,
            config.is_prod,
            user_id@,
            session_id@,
            now,
            answered_at,
        ),
{
    let session = open_session(user_id, session_id, now);
    match stored(data.sessions.insert(&session), "error inserting session") {
        Err(e) => Err(e),
        Ok(()) => Ok(
            session_cookie(
                config,
                user_id,
                session.id.as_str(),
                now + SESSION_LIFETIME,
                answered_at,
            ),
        ),
    }
}

/// Signs in to an account that exists, given what the password check said.
pub fn login_known(
    data: &mut Data,
    config: &Config,
    user: &User,
    verdict: Result<bool, PasswordError>,
    session_id: String,
    now: Timestamp,
    answered_at: Timestamp,
) -> (r: Result<String, ApiError>)
    requires
        now + SESSION_LIFETIME <= i64::MAX,
    ensures
        (text_result_view(r), final(data)@) == login_known_spec(
            old(data)@,
            config.secret@,
            config.is_prod,
            user@,
            verdict,
            session_id@,
            now,
            answered_at,
        ),
{
    match password_decision(verdict) {
        Err(e) => Err(e),
        Ok(()) => start_session(data, config, user.id.as_str(), session_id, now, answered_at),
    }
}

/// Signs in under a user name that no account bears, given what hashing the
/// password gave.
pub fn login_new(
    data: &mut Data,
    config: &Config,
    username: String,
    hashed: Result<String, PasswordError>,
    fresh: Fresh,
) -> (r: Result<String, ApiError>)
    requires
        fresh.now + SESSION_LIFETIME <= i64::MAX,
    ensures
        (text_result_view(r), final(data)@) == login_new_spec(
            old(data)@,
            config.secret@,
            config.is_prod,
            username@,
            hashed_view(hashed),
            fresh.user_id@,
            fresh.session_id@,
            fresh.now,
            fresh.answered_at,
        ),
{
    let Fresh { user_id, session_id, now, answered_at } = fresh;
    match new_account(user_id, username, hashed) {
        Err(e) => Err(e),
        Ok(user) => match stored(data.users.insert(&user), "error inserting user") {
            Err(e) => Err(e),
            Ok(()) => start_session(data, config, user.id.as_str(), session_id, now, answered_at),
        },
    }
}

/// Registers a user name that is free, given what hashing the password gave.
pub fn register_new(
    data: &mut Data,
    config: &Config,
    username: String,
    hashed: Result<String, PasswordError>,
    fresh: Fresh,
) -> (r: Result<String, ApiError>)
    requires
        fresh.now + SESSION_LIFETIME <= i64::MAX,
    ensures
        (text_result_view(r), final(data)@) == register_new_spec(
            old(data)@,
            config.secret@,
            config.is_prod,
            username@,
            hashed_view(hashed),
            fresh.user_id@,
            fresh.session_id@,
            fresh.now,
            fresh.answered_at,
        ),
{
    let Fresh { user_id, session_id, now, answered_at } = fresh;
    match new_account(user_id, username, hashed) {
        Err(e) => Err(e),
        Ok(user) => {
            let session = open_session(user.id.as_str(), session_id, now);
            let inserted = data.users.insert_with_session(&mut data.sessions, &user, &session);
            match stored(inserted, "error inserting user with session") {
                Err(e) => Err(e),
                Ok(()) => Ok(
                    session_cookie(
                        config,
                        user.id.as_str(),
                        session.id.as_str(),
                        now + SESSION_LIFETIME,
                        answered_at,
                    ),
                ),
            }
        },
    }
}

/// Signs a user in. Under a user name that an account bears, the password
/// must be the account's. Under a user name that no account bears, an
/// account is created whose stored hash is one of the typed password: signing
/// in under a new name registers it. Either way a session is opened and the
/// answer is the cookie that carries it.
pub fn login_handler(data: &mut Data, config: &Config, input: AuthForm, fresh: Fresh) -> (r: Result<
    String,
    ApiError,
>)
    requires
        fresh.now + SESSION_LIFETIME <= i64::MAX,
    ensures
        match find(old(data)@.names, input.username@) {
            Some(user) => (text_result_view(r), final(data)@) == login_known_spec(
                old(data)@,
                config.secret@,
                config.is_prod,
                user,
                verify_outcome(argon2_verdict(input.password@, user.password_hash)),
                fresh.session_id@,
                fresh.now,
                fresh.answered_at,
            ),
            None => exists|hashed: Result<Seq<char>, PasswordError>|
                hashing_outcome(input.password@, hashed) && (text_result_view(r), final(data)@) == #[trigger] login_new_spec(
                    old(data)@,
                    config.secret@,
                    config.is_prod,
                    input.username@,
                    hashed,
                    fresh.user_id@,
                    fresh.session_id@,
                    fresh.now,
                    fresh.answered_at,
                ),
        },
{
    run(data, config, Purpose::Login, input, fresh)
}

/// Registers a new user. A user name that an account bears is turned down
/// and nothing changes. Otherwise the typed password is hashed, the account
/// is created with that hash, never with the password itself, and stored
/// together with its first session, and the answer is the cookie that
/// carries the session.
pub fn register_handler(data: &mut Data, config: &Config, input: AuthForm, fresh: Fresh) -> (r:
    Result<String, ApiError>)
    requires
        fresh.now + SESSION_LIFETIME <= i64::MAX,
    ensures
        match find(old(data)@.names, input.username@) {
            Some(_) => text_result_view(r) == Err::<Seq<char>, ApiErrorView>(
                ApiErrorView::Unauthorized("username taken"@),
            ) && final(data)@ == old(data)@,
            None => exists|hashed: Result<Seq<char>, PasswordError>|
                hashing_outcome(input.password@, hashed) && (text_result_view(r), final(data)@) == #[trigger] register_new_spec(
                    old(data)@,
                    config.secret@,
                    config.is_prod,
                    input.username@,
                    hashed,
                    fresh.user_id@,
                    fresh.session_id@,
                    fresh.now,
                    fresh.answered_at,
                ),
        },
{
    run(data, config, Purpose::Register, input, fresh)
}

} // verus!
