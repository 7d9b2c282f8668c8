//! One server: its settings, its stores and its hub, and the calls it
//! serves. Every call but signing in and registering is served on behalf of
//! the caller that the cookies of the request identify; a request whose
//! caller is not identified touches neither the stores nor the hub.

use crate::auth::password::{argon2_verdict, verify_outcome, PasswordError};
use crate::auth::user_id::{authenticate_spec, Auth, CookieHeader, UserId};
use crate::config::Config;
use crate::data::bookmarks::{bulk_upsert_spec, sorted, views_of};
use crate::data::sessions::session_delete_spec;
use crate::data::table::find;
use crate::data::Data;
use crate::error::{text_result_view, ApiError, ApiErrorView};
use crate::handlers::{
    bootstrap_handler, bootstrap_read_spec, bootstrap_response_spec, bootstrap_view, hashing_outcome,
    login_handler,
    login_known_spec, login_new_spec, logout_handler, logout_response_spec, me_handler,
    me_response_spec, me_view, page_limit_spec, register_handler, register_new_spec, sse_handler,
    sync_handler, AuthForm, BootstrapRequest, BootstrapResponse, DataView, Fresh, MeResponse,
    SyncRequest,
};
use crate::hub::{tagged, Hub, ReceivedView, Subscriber, SyncMessageView};
use crate::time::SESSION_LIFETIME;
use vstd::prelude::*;

verus! {

/// A server with its state.
pub struct Server {
    pub config: Config,
    pub data: Data,
    pub hub: Hub,
}

impl Server {
    /// Whom the cookies of a request identify to this server.
    pub open spec fn caller(&self, header: &CookieHeader) -> Result<
        crate::auth::user_id::AuthDataView,
        ApiErrorView,
    > {
        authenticate_spec(header@, self.config.secret@, self.data.sessions@)
    }

    /// A server with empty stores and nobody connected.
    pub fn new(config: Config) -> (server: Server)
        ensures
            server.config == config,
            server.data@.bookmarks == Map::<
                crate::data::bookmarks::Key,
                crate::data::bookmarks::BookmarkView,
            >::empty(),
            server.data@.sessions == Map::<Seq<char>, crate::data::sessions::SessionView>::empty(),
            server.data@.users == Map::<Seq<char>, crate::data::users::UserView>::empty(),
            server.data@.names == Map::<Seq<char>, crate::data::users::UserView>::empty(),
            server.hub.capacity() == crate::hub::HUB_CAPACITY,
            server.hub.published() == Seq::<SyncMessageView>::empty(),
    {
        Server { config, data: Data::new(), hub: Hub::new() }
    }

    /// Takes in a batch of changes of the caller: the batch is written to the
    /// bookmark store and then broadcast. Without a valid session nothing is
    /// written and nothing is broadcast.
    pub fn sync(&mut self, header: &CookieHeader, req: SyncRequest) -> (r: Result<(), ApiError>)
        ensures
            final(self).config == old(self).config,
            final(self).hub.channel() == old(self).hub.channel(),
            match old(self).caller(header) {
                Err(e) => r is Err && r->Err_0@ == e && final(self).data@ == old(self).data@ && final(self).hub.published() == old(self).hub.published(),
                Ok(caller) => r is Ok && final(self).data@ == (DataView {
                    bookmarks: bulk_upsert_spec(
                        old(self).data@.bookmarks,
                        caller.user_id,
                        views_of(req.bookmarks@),
                    ),
                    ..old(self).data@
                }) && sorted(final(self).data.bookmarks.listing()) && final(self).hub.published()
                    == old(self).hub.published() + tagged(caller.user_id, views_of(req.bookmarks@)),
            },
    {
        match UserId::from_request_parts(header, self.config.secret.as_str(), &self.data) {
            Err(e) => Err(e),
            Ok(user_id) => sync_handler(&mut self.hub, &mut self.data, &user_id, req),
        }
    }

    /// Serves the caller one page of a catch-up read.
    pub fn bootstrap(&self, header: &CookieHeader, req: &BootstrapRequest) -> (r: Result<
        BootstrapResponse,
        ApiError,
    >)
        ensures
            match self.caller(header) {
                Err(e) => r is Err && r->Err_0@ == e,
                Ok(caller) => bootstrap_view(r) == bootstrap_response_spec(
                    bootstrap_read_spec(&self.data, caller.user_id, req),
                    page_limit_spec(req.limit) as int,
                ),
            },
    {
        match UserId::from_request_parts(header, self.config.secret.as_str(), &self.data) {
            Err(e) => Err(e),
            Ok(user_id) => bootstrap_handler(&self.data, &user_id, req),
        }
    }

    /// Opens the live stream of the caller.
    pub fn events(&self, header: &CookieHeader) -> (r: Result<Subscriber, ApiError>)
        ensures
            match self.caller(header) {
                Err(e) => r is Err && r->Err_0@ == e,
                Ok(caller) => r is Ok && r->Ok_0.channel() == self.hub.channel() && r->Ok_0.user_id()
                    == caller.user_id && r->Ok_0.received() == Seq::<ReceivedView>::empty(),
            },
    {
        match UserId::from_request_parts(header, self.config.secret.as_str(), &self.data) {
            Err(e) => Err(e),
            Ok(user_id) => Ok(sse_handler(&self.hub, user_id)),
        }
    }

    /// Tells the caller its id and its user name.
    pub fn me(&self, header: &CookieHeader) -> (r: Result<MeResponse, ApiError>)
        ensures
            match self.caller(header) {
                Err(e) => r is Err && r->Err_0@ == e,
                Ok(caller) => me_view(r) == me_response_spec(
                    Ok(find(self.data@.users, caller.user_id)),
                ),
            },
    {
        match UserId::from_request_parts(header, self.config.secret.as_str(), &self.data) {
            Err(e) => Err(e),
            Ok(user_id) => me_handler(&self.data, &user_id),
        }
    }

    /// Signs the caller out of the session of the request.
    pub fn logout(&mut self, header: &CookieHeader) -> (r: Result<String, ApiError>)
        ensures
            final(self).config == old(self).config,
            final(self).hub.channel() == old(self).hub.channel(),
            final(self).hub.published() == old(self).hub.published(),
            match old(self).caller(header) {
                Err(e) => r is Err && r->Err_0@ == e && final(self).data@ == old(self).data@,
                Ok(caller) => text_result_view(r) == logout_response_spec(
                    Ok(()),
                    old(self).config.is_prod,
                ) && final(self).data@ == (DataView {
                    sessions: session_delete_spec(
                        old(self).data@.sessions,
                        caller.user_id,
                        caller.session_id,
                    ),
                    ..old(self).data@
                }),
            },
    {
        match Auth::from_request_parts(header, self.config.secret.as_str(), &self.data) {
            Err(e) => Err(e),
            Ok(auth) => logout_handler(&mut self.data, &auth, self.config.is_prod),
        }
    }

    /// Signs a user in; see [`login_handler`].
    pub fn login(&mut self, input: AuthForm, fresh: Fresh) -> (r: Result<String, ApiError>)
        requires
            fresh.now + SESSION_LIFETIME <= i64::MAX,
        ensures
            final(self).config == old(self).config,
            final(self).hub.channel() == old(self).hub.channel(),
            final(self).hub.published() == old(self).hub.published(),
            match find(old(self).data@.names, input.username@) {
                Some(user) => (text_result_view(r), final(self).data@) == login_known_spec(
                    old(self).data@,
                    old(self).config.secret@,
                    old(self).config.is_prod,
                    user,
                    verify_outcome(argon2_verdict(input.password@, user.password_hash)),
                    fresh.session_id@,
                    fresh.now,
                    fresh.answered_at,
                ),
                None => exists|hashed: Result<Seq<char>, PasswordError>|
                    hashing_outcome(input.password@, hashed) && (text_result_view(r), final(self).data@) == #[trigger] login_new_spec(
                        old(self).data@,
                        old(self).config.secret@,
                        old(self).config.is_prod,
                        input.username@,
                        hashed,
                        fresh.user_id@,
                        fresh.session_id@,
                        fresh.now,
                        fresh.answered_at,
                    ),
            },
    {
        login_handler(&mut self.data, &self.config, input, fresh)
    }

    /// Registers a new user; see [`register_handler`].
    pub fn register(&mut self, input: AuthForm, fresh: Fresh) -> (r: Result<String, ApiError>)
        requires
            fresh.now + SESSION_LIFETIME <= i64::MAX,
        ensures
            final(self).config == old(self).config,
            final(self).hub.channel() == old(self).hub.channel(),
            final(self).hub.published() == old(self).hub.published(),
            match find(old(self).data@.names, input.username@) {
                Some(_) => text_result_view(r) == Err::<Seq<char>, ApiErrorView>(
                    ApiErrorView::Unauthorized("username taken"@),
                ) && final(self).data@ == old(self).data@,
                None => exists|hashed: Result<Seq<char>, PasswordError>|
                    hashing_outcome(input.password@, hashed) && (text_result_view(r), final(self).data@) == #[trigger] register_new_spec(
                        old(self).data@,
                        old(self).config.secret@,
                        old(self).config.is_prod,
                        input.username@,
                        hashed,
                        fresh.user_id@,
                        fresh.session_id@,
                        fresh.now,
                        fresh.answered_at,
                    ),
            },
    {
        register_handler(&mut self.data, &self.config, input, fresh)
    }
}

} // verus!
